use rusterizer::args::{Args, ArgsError, Mode};

#[test]
fn valid_args() {
    let _args = Args {
        mesh_file: String::from("a.obj"),
        image_file: String::from("a.png"),
        image_width: 1,
        image_height: 1,
        mode: Mode::Wireframe,
    };
}

#[test]
fn invalid_height() {
    let raw_args = vec!["name", "a", "b", "1", "-1"];
    let args = Args::structure_args(&raw_args);
    assert_eq!(args, Err(ArgsError::ImageDimensions("height invalid")));
}

#[test]
fn invalid_width() {
    let raw_args = vec!["name", "a", "b", "0", "1"];
    let args = Args::structure_args(&raw_args);
    assert_eq!(args, Err(ArgsError::ImageDimensions("width invalid")));
}

#[test]
fn invalid_mode() {
    let raw_args1 = vec!["name", "a", "b", "1", "1", ""];
    let args1 = Args::structure_args(&raw_args1);
    assert_eq!(args1, Err(ArgsError::BadMode));

    let raw_args2 = vec!["name", "a", "b", "1", "1", "garbage"];
    let args2 = Args::structure_args(&raw_args2);
    assert_eq!(args2, Err(ArgsError::BadMode));
}

#[test]
fn wireframe_short() {
    let raw_args = vec!["name", "a", "b", "1", "1", "-w"];
    let args = Args::structure_args(&raw_args);
    assert_eq!(args.unwrap().mode, Mode::Wireframe);
}

#[test]
fn wireframe_fully_qualified() {
    let raw_args = vec!["name", "a", "b", "1", "1", "--wireframe"];
    let args = Args::structure_args(&raw_args);
    assert_eq!(args.unwrap().mode, Mode::Wireframe)
}

#[test]
fn depth() {
    let raw_args = vec!["name", "a", "b", "1", "1"];
    let args = Args::structure_args(&raw_args);
    assert_eq!(args.unwrap().mode, Mode::Depth);
}

#[test]
fn too_few_or_too_many_arguments() {
    let short = vec!["name", "a", "b", "1"];
    assert_eq!(Args::structure_args(&short), Err(ArgsError::BadLength));
    let long = vec!["name", "a", "b", "1", "1", "-w", "x"];
    assert_eq!(Args::structure_args(&long), Err(ArgsError::BadLength));
    let empty: Vec<&str> = vec![];
    assert_eq!(Args::structure_args(&empty), Err(ArgsError::BadLength));
}

#[test]
fn all_fields_are_read() {
    let raw_args = vec!["prog", "teapot.obj", "out.png", "640", "+480"];
    let args = Args::structure_args(&raw_args).unwrap();
    assert_eq!(
        args,
        Args {
            mesh_file: String::from("teapot.obj"),
            image_file: String::from("out.png"),
            image_width: 640,
            image_height: 480,
            mode: Mode::Depth,
        }
    );
}

#[test]
fn extents_are_decimal_numerals() {
    let leading_zeros = vec!["prog", "m", "i", "007", "4294967295"];
    let args = Args::structure_args(&leading_zeros).unwrap();
    assert_eq!(args.image_width, 7);
    assert_eq!(args.image_height, 4294967295);

    let overflow = vec!["prog", "m", "i", "4294967296", "1"];
    assert_eq!(
        Args::structure_args(&overflow),
        Err(ArgsError::ImageDimensions("width invalid"))
    );
    let spaced = vec!["prog", "m", "i", "12", " 3"];
    assert_eq!(
        Args::structure_args(&spaced),
        Err(ArgsError::ImageDimensions("height invalid"))
    );
    let sign_only = vec!["prog", "m", "i", "+", "3"];
    assert_eq!(
        Args::structure_args(&sign_only),
        Err(ArgsError::ImageDimensions("width invalid"))
    );
}

#[test]
fn width_is_checked_before_mode() {
    let raw_args = vec!["prog", "m", "i", "x", "1", "garbage"];
    assert_eq!(
        Args::structure_args(&raw_args),
        Err(ArgsError::ImageDimensions("width invalid"))
    );
}

#[test]
fn help_names_the_arguments() {
    assert_eq!(
        Args::help(),
        "Usage: rusterizer Meshfile Imagefile image_width image_height [-w | --wireframe]"
    );
}
