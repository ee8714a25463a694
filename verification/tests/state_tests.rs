use idmybee::explorer;
use idmybee::file_explorer::{FileExplorer, FsEntry};
use idmybee::session::{parse_field_u32, AppState};
use idmybee::shortcuts::AppShortcuts;

fn entry(path: &str, name: &str, is_dir: bool, is_file: bool) -> FsEntry {
    FsEntry { path: String::from(path), name: String::from(name), is_dir, is_file }
}

fn listed_explorer() -> FileExplorer {
    let mut fe = FileExplorer::new();
    let entries = vec![
        entry("/pics/sub", "sub", true, false),
        entry("/pics/a.jpg", "a.jpg", false, true),
        entry("/pics/notes.txt", "notes.txt", false, true),
        entry("/pics/b.png", "b.png", false, true),
    ];
    fe.update_paths(&entries);
    fe
}

#[test]
fn update_paths_keeps_only_images_and_directories() {
    let fe = listed_explorer();
    assert_eq!(fe.dirnames, vec!["sub"]);
    assert_eq!(fe.dir_vec, vec!["/pics/sub"]);
    assert_eq!(fe.filenames, vec!["a.jpg", "b.png"]);
    assert_eq!(fe.file_vec, vec!["/pics/a.jpg", "/pics/b.png"]);
    assert!(fe.selected_file_index.is_none());
    assert!(fe.err.is_none());
}

#[test]
fn update_paths_refinds_the_selected_file_by_path() {
    let mut fe = listed_explorer();
    fe.next_file();
    fe.next_file();
    assert_eq!(fe.selected_file.as_deref(), Some("/pics/b.png"));
    let entries = vec![
        entry("/pics/b.png", "b.png", false, true),
        entry("/pics/c.bmp", "c.bmp", false, true),
    ];
    fe.update_paths(&entries);
    assert_eq!(fe.selected_file_index, Some(0));
    let entries = vec![entry("/pics/c.bmp", "c.bmp", false, true)];
    fe.update_paths(&entries);
    assert_eq!(fe.selected_file_index, None);
}

#[test]
fn next_and_previous_clamp_to_the_listing() {
    let mut fe = listed_explorer();
    fe.next_file();
    assert_eq!(fe.selected_file_index, Some(0));
    assert_eq!(fe.selected_file.as_deref(), Some("/pics/a.jpg"));
    fe.next_file();
    assert_eq!(fe.selected_file_index, Some(1));
    assert_eq!(fe.selected_file.as_deref(), Some("/pics/b.png"));
    fe.next_file();
    assert_eq!(fe.selected_file_index, Some(1));
    fe.previous_file();
    assert_eq!(fe.selected_file_index, Some(0));
    fe.previous_file();
    assert_eq!(fe.selected_file_index, Some(0));
}

#[test]
fn navigation_does_nothing_on_an_empty_listing() {
    let mut fe = FileExplorer::new();
    fe.next_file();
    assert!(fe.selected_file.is_none());
    assert!(fe.selected_file_index.is_none());
    fe.previous_file();
    assert!(fe.selected_file.is_none());
}

#[test]
fn select_file_sets_the_default_output_name() {
    let mut fe = listed_explorer();
    fe.select_file(1);
    assert_eq!(fe.selected_file.as_deref(), Some("/pics/b.png"));
    assert_eq!(fe.selected_file_index, Some(1));
    assert_eq!(fe.output_img_name, "b_crop.png");
}

#[test]
fn output_full_path_joins_directory_and_name() {
    let mut fe = listed_explorer();
    fe.output_img_dir = String::from("/out/dir");
    fe.select_file(0);
    assert_eq!(fe.output_img_name, "a_crop.jpg");
    assert_eq!(fe.output_full_path(), "/out/dir/a_crop.jpg");
    fe.output_img_dir = String::from("/out/dir/");
    assert_eq!(fe.output_full_path(), "/out/dir/a_crop.jpg");
    fe.output_img_dir = String::new();
    assert_eq!(fe.output_full_path(), "a_crop.jpg");
}

#[test]
fn default_output_name_is_empty_without_a_selection() {
    let fe = listed_explorer();
    assert_eq!(fe.get_default_output_filename(), "");
    assert!(fe.get_filepath().is_none());
}

#[test]
fn get_filepath_returns_the_selected_path() {
    let mut fe = listed_explorer();
    fe.select_file(0);
    assert_eq!(fe.get_filepath().as_deref(), Some("/pics/a.jpg"));
}

#[test]
fn extension_allow_list_decides_image_candidates() {
    let fe = FileExplorer::new();
    assert!(fe.is_file_valid_image_ext("/x/photo.jpeg"));
    assert!(fe.is_file_valid_image_ext("shot.webp"));
    assert!(!fe.is_file_valid_image_ext("/x/notes.txt"));
    assert!(!fe.is_file_valid_image_ext("/x/no_extension"));
}

#[test]
fn change_dir_sets_breadcrumbs_and_listing() {
    let mut fe = FileExplorer::new();
    let entries = vec![entry("/home/user/pics/a.jpg", "a.jpg", false, true)];
    fe.change_dir("/home/user/pics", "/home/user/pics", &entries);
    assert_eq!(fe.current_dir, "/home/user/pics");
    assert_eq!(fe.output_img_dir, "/home/user/pics");
    assert_eq!(fe.split_current_dir, vec!["/", "home", "user", "pics"]);
    assert_eq!(fe.filenames, vec!["a.jpg"]);
    assert!(fe.err.is_none());
}

#[test]
fn session_starts_with_the_defaults() {
    let s = AppState::new();
    assert_eq!(s.out_x, 600);
    assert_eq!(s.out_y, 300);
    assert_eq!(s.zoom100, 120);
    assert!(!s.try_load && !s.has_original && !s.has_cropped);
    assert!(s.load_err.is_none() && s.crop_err.is_none() && s.save_err.is_none());
}

#[test]
fn clearing_images_resets_crop_and_save_outcomes() {
    let mut s = AppState::new();
    s.has_original = true;
    s.has_cropped = true;
    s.crop_err = Some(String::from("bad crop"));
    s.save_err = Some(String::from("bad save"));
    s.clear_all_images();
    assert!(!s.has_original && !s.has_cropped);
    assert!(s.crop_err.is_none() && s.save_err.is_none());
}

#[test]
fn load_outcomes_replace_the_held_images() {
    let mut s = AppState::new();
    s.finish_load(None);
    assert!(s.try_load && s.has_original && !s.has_cropped);
    assert!(s.load_err.is_none());
    s.finish_crop(None);
    assert!(s.has_cropped);
    s.finish_load(Some(String::from("unreadable")));
    assert!(!s.has_original && !s.has_cropped);
    assert_eq!(s.load_err.as_deref(), Some("unreadable"));
    assert!(s.crop_err.is_none() && s.save_err.is_none());
}

#[test]
fn crop_and_save_outcomes_keep_previous_results_on_failure() {
    let mut s = AppState::new();
    s.finish_load(None);
    s.finish_crop(None);
    s.finish_crop(Some(String::from("markers missing")));
    assert!(s.has_cropped);
    assert_eq!(s.crop_err.as_deref(), Some("markers missing"));
    s.finish_save(Some(String::from("disk full")));
    assert_eq!(s.save_err.as_deref(), Some("disk full"));
    s.finish_save(None);
    assert!(s.save_err.is_none() && s.crop_err.is_none());
}

#[test]
fn zoom_steps_by_a_tenth_and_saturates() {
    let mut s = AppState::new();
    s.zoom_in();
    assert_eq!(s.zoom100, 130);
    s.zoom_out();
    s.zoom_out();
    assert_eq!(s.zoom100, 110);
    s.zoom100 = 5;
    s.zoom_out();
    assert_eq!(s.zoom100, 0);
    s.zoom100 = u32::MAX - 3;
    s.zoom_in();
    assert_eq!(s.zoom100, u32::MAX);
}

#[test]
fn numeric_fields_parse_like_the_edit_box() {
    assert_eq!(parse_field_u32("42"), 42);
    assert_eq!(parse_field_u32(" 7 "), 7);
    assert_eq!(parse_field_u32("+9"), 9);
    assert_eq!(parse_field_u32("007"), 7);
    assert_eq!(parse_field_u32(""), 0);
    assert_eq!(parse_field_u32("  "), 0);
    assert_eq!(parse_field_u32("abc"), 0);
    assert_eq!(parse_field_u32("1e3"), 0);
    assert_eq!(parse_field_u32("-4"), 0);
    assert_eq!(parse_field_u32("+"), 0);
    assert_eq!(parse_field_u32("4294967295"), u32::MAX);
    assert_eq!(parse_field_u32("4294967296"), 0);
    assert_eq!(parse_field_u32("99999999999999999999"), 0);
}

#[test]
fn shortcut_defaults_match_the_layout() {
    let s = AppShortcuts::new(None, None, None, None, None, None, None, None);
    assert_eq!(s.next_file, "S");
    assert_eq!(s.previous_file, "Z");
    assert_eq!(s.increase_zoom, "D");
    assert_eq!(s.decrease_zoom, "Q");
    assert_eq!(s.crop_image, "Space");
    assert_eq!(s.select_input_dir, "F");
    assert_eq!(s.select_output_dir, "V");
    assert_eq!(s.save_crop_image, "R");
}

#[test]
fn configured_shortcut_names_are_capitalized() {
    let s = AppShortcuts::new(
        Some("space"),
        Some("x"),
        None,
        None,
        Some("Enter"),
        None,
        None,
        None,
    );
    assert_eq!(s.next_file, "Space");
    assert_eq!(s.previous_file, "X");
    assert_eq!(s.crop_image, "Enter");
    assert_eq!(s.increase_zoom, "D");
}

#[test]
fn minimal_browser_remembers_the_open_directory() {
    let mut fe = explorer::FileExplorer::new(String::from("/home/user"));
    assert_eq!(fe.current_path, "/home/user");
    fe.open(String::from("/home/user/pics"));
    assert_eq!(fe.current_path, "/home/user/pics");
}
