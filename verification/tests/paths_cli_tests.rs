use idmybee::cli::plan_outputs;
use idmybee::errors::ArgumentValidationError;
use idmybee::paths::{
    derived_output_name, file_name_of, split_path, split_stem_ext, u32_to_string, zoom_tag,
};

#[test]
fn decimal_rendering_is_exact() {
    assert_eq!(u32_to_string(0), "0");
    assert_eq!(u32_to_string(7), "7");
    assert_eq!(u32_to_string(1234), "1234");
    assert_eq!(u32_to_string(u32::MAX), "4294967295");
}

#[test]
fn zoom_tags_replace_the_decimal_point_with_a_hyphen() {
    assert_eq!(zoom_tag(150), "1-50");
    assert_eq!(zoom_tag(100), "1-00");
    assert_eq!(zoom_tag(105), "1-05");
    assert_eq!(zoom_tag(1234), "12-34");
    assert_eq!(zoom_tag(20), "0-20");
}

#[test]
fn derived_output_name_follows_the_pattern() {
    assert_eq!(derived_output_name("card.jpg", 150).unwrap(), "card_preproc_z1-50.jpg");
    assert_eq!(derived_output_name("dir/photo.png", 100).unwrap(), "dir/photo_preproc_z1-00.png");
    assert!(derived_output_name("no_extension", 100).is_none());
}

#[test]
fn file_names_and_extensions_split_as_paths_do() {
    assert_eq!(file_name_of("/a/b/card.jpg"), "card.jpg");
    assert_eq!(file_name_of("card.jpg"), "card.jpg");
    let (stem, ext) = split_stem_ext("card.jpg");
    assert_eq!(stem, "card");
    assert_eq!(ext, "jpg");
    let (stem, ext) = split_stem_ext("a.b.c");
    assert_eq!(stem, "a.b");
    assert_eq!(ext, "c");
    let (stem, ext) = split_stem_ext(".gitignore");
    assert_eq!(stem, ".gitignore");
    assert_eq!(ext, "");
    let (stem, ext) = split_stem_ext("plain");
    assert_eq!(stem, "plain");
    assert_eq!(ext, "");
}

#[test]
fn paths_split_into_components() {
    assert_eq!(split_path("/home/user/pics"), vec!["/", "home", "user", "pics"]);
    assert_eq!(split_path("relative/dir"), vec!["relative", "dir"]);
    assert_eq!(split_path("doubled//slash"), vec!["doubled", "slash"]);
    assert_eq!(split_path(""), Vec::<String>::new());
    assert_eq!(split_path("/"), vec!["/"]);
}

#[test]
fn mismatched_output_and_zoom_counts_are_rejected_before_any_work() {
    let outputs = vec![String::from("a.png"), String::from("b.png")];
    let err = plan_outputs("card.jpg", &outputs, &vec![100], &vec![600, 400]).unwrap_err();
    assert_eq!(err, ArgumentValidationError::OutputCountMismatch { outputs: 2, zooms: 1 });
}

#[test]
fn default_output_path_is_derived_per_zoom() {
    let plan = plan_outputs("card.jpg", &vec![], &vec![150], &vec![600, 400]).unwrap();
    assert_eq!(plan.width, 600);
    assert_eq!(plan.height, 400);
    assert_eq!(plan.tasks.len(), 1);
    assert_eq!(plan.tasks[0].zoom100, 150);
    assert_eq!(plan.tasks[0].path, "card_preproc_z1-50.jpg");
}

#[test]
fn explicit_output_paths_are_kept_verbatim() {
    let outputs = vec![String::from("x.png"), String::from("y.png")];
    let plan = plan_outputs("card.jpg", &outputs, &vec![100, 200], &vec![600, 400]).unwrap();
    assert_eq!(plan.tasks[0].path, "x.png");
    assert_eq!(plan.tasks[1].path, "y.png");
    assert_eq!(plan.tasks[1].zoom100, 200);
}

#[test]
fn malformed_dimension_lists_are_rejected() {
    let err = plan_outputs("card.jpg", &vec![], &vec![100], &vec![600]).unwrap_err();
    assert_eq!(err, ArgumentValidationError::DimensionCountMismatch { given: 1 });
    let err = plan_outputs("card.jpg", &vec![], &vec![100], &vec![600, 0]).unwrap_err();
    assert_eq!(err, ArgumentValidationError::DimensionOutOfRange);
    let err = plan_outputs("card.jpg", &vec![], &vec![100], &vec![-5, 400]).unwrap_err();
    assert_eq!(err, ArgumentValidationError::DimensionOutOfRange);
}

#[test]
fn out_of_range_zooms_are_rejected() {
    let err = plan_outputs("card.jpg", &vec![], &vec![0], &vec![600, 400]).unwrap_err();
    assert_eq!(err, ArgumentValidationError::ZoomOutOfRange);
}

#[test]
fn deriving_from_an_extensionless_input_fails() {
    let err = plan_outputs("card", &vec![], &vec![100], &vec![600, 400]).unwrap_err();
    assert_eq!(err, ArgumentValidationError::InputMissingExtension);
    // With explicit outputs nothing needs deriving.
    let outputs = vec![String::from("out.png")];
    assert!(plan_outputs("card", &outputs, &vec![100], &vec![600, 400]).is_ok());
}

#[test]
fn empty_zoom_list_plans_nothing() {
    let plan = plan_outputs("card.jpg", &vec![], &vec![], &vec![600, 400]).unwrap();
    assert!(plan.tasks.is_empty());
}
