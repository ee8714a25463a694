//! The configurable keyboard shortcuts of the interactive application: an
//! explicit record mapping each action to the name of its key, built from
//! optional configuration values with built-in defaults.  Key names are
//! normalized by capitalizing their first letter; reading the configuration
//! file itself stays with the caller.

use vstd::prelude::*;

verus! {

/// What `ucfirst::ucfirst` returns for a string: a fixed function of its
/// characters alone.
pub uninterp spec fn ucfirst_of(s: Seq<char>) -> Seq<char>;

/// Relies on `ucfirst::ucfirst`: capitalizes the first character of a
/// string, leaves an empty string empty, and never shortens the string.
#[verifier::external_body]
fn capitalize_first(s: &str) -> (r: String)
    ensures
        r@ == ucfirst_of(s@),
        s@.len() == 0 ==> r@.len() == 0,
        r@.len() >= s@.len(),
{
    ucfirst::ucfirst(s)
}

/// The key name an action ends up with: the configured value where one was
/// given, the default otherwise, first letter capitalized.
pub open spec fn key_name_spec(config_value: Option<&str>, default_key: &str) -> Seq<char> {
    ucfirst_of(
        match config_value {
            Some(v) => v@,
            None => default_key@,
        },
    )
}

/// Normalizes one configured key: the given value, or the default where the
/// configuration gave none, with its first letter capitalized.
pub fn conf_to_key(config_value: Option<&str>, default_key: &str) -> (r: String)
    ensures
        r@ == key_name_spec(config_value, default_key),
{
    match config_value {
        Some(v) => capitalize_first(v),
        None => capitalize_first(default_key),
    }
}

/// The key name of every action of the interactive application.
pub struct AppShortcuts {
    pub crop_image: String,
    pub decrease_zoom: String,
    pub increase_zoom: String,
    pub next_file: String,
    pub previous_file: String,
    pub save_crop_image: String,
    pub select_input_dir: String,
    pub select_output_dir: String,
}

impl AppShortcuts {
    /// Builds the shortcut record from the configured values, falling back
    /// to the default key of each action.
    pub fn new(
        next_file: Option<&str>,
        previous_file: Option<&str>,
        increase_zoom: Option<&str>,
        decrease_zoom: Option<&str>,
        crop_image: Option<&str>,
        select_input_dir: Option<&str>,
        select_output_dir: Option<&str>,
        save_crop_image: Option<&str>,
    ) -> (r: AppShortcuts)
        ensures
            r.next_file@ == key_name_spec(next_file, "S"),
            r.previous_file@ == key_name_spec(previous_file, "Z"),
            r.increase_zoom@ == key_name_spec(increase_zoom, "D"),
            r.decrease_zoom@ == key_name_spec(decrease_zoom, "Q"),
            r.crop_image@ == key_name_spec(crop_image, "Space"),
            r.select_input_dir@ == key_name_spec(select_input_dir, "F"),
            r.select_output_dir@ == key_name_spec(select_output_dir, "V"),
            r.save_crop_image@ == key_name_spec(save_crop_image, "R"),
    {
        AppShortcuts {
            next_file: conf_to_key(next_file, "S"),
            previous_file: conf_to_key(previous_file, "Z"),
            increase_zoom: conf_to_key(increase_zoom, "D"),
            decrease_zoom: conf_to_key(decrease_zoom, "Q"),
            crop_image: conf_to_key(crop_image, "Space"),
            select_input_dir: conf_to_key(select_input_dir, "F"),
            select_output_dir: conf_to_key(select_output_dir, "V"),
            save_crop_image: conf_to_key(save_crop_image, "R"),
        }
    }
}

} // verus!
