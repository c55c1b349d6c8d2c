//! The configuration record that is saved and loaded as JSON, and the
//! one-slot mailbox through which a load that runs outside the tick hands its
//! text over.
use vstd::prelude::*;
use barnsley::transform::Transform;

verus! {

/// `serde_json::Error`, the error of a failed JSON parse or encode.
#[verifier::external_type_specification]
#[verifier::external_body]
pub struct ExJsonError(serde_json::Error);

/// The settings and transforms of one run: image size and output path,
/// number of points and of iterations, and the transforms of the first
/// keyframe.
pub struct ConfigRecord {
    pub width: u32,
    pub height: u32,
    pub path: String,
    pub num_iterations: u32,
    pub num_points: u32,
    pub transforms: Vec<Transform>,
}

/// The value of a `ConfigRecord`.
pub struct ConfigModel {
    pub width: u32,
    pub height: u32,
    pub path: Seq<char>,
    pub num_iterations: u32,
    pub num_points: u32,
    pub transforms: Seq<Transform>,
}

impl View for ConfigRecord {
    type V = ConfigModel;

    open spec fn view(&self) -> ConfigModel {
        ConfigModel {
            width: self.width,
            height: self.height,
            path: self.path@,
            num_iterations: self.num_iterations,
            num_points: self.num_points,
            transforms: self.transforms@,
        }
    }
}

/// The record that `text` describes as a `barnsley` config in JSON, or `None`
/// where it is not one.
pub uninterp spec fn parsed_config(text: Seq<char>) -> Option<ConfigModel>;

/// The JSON text of the `barnsley` config that `c` describes.
pub uninterp spec fn config_json(c: ConfigModel) -> Seq<char>;

/// Relies on `serde_json::from_str` into `barnsley::config::Config`: it either
/// fails or returns the config that the text describes, a function of the text
/// alone. The fields are moved into a `ConfigRecord` one for one.
#[verifier::external_body]
pub(crate) fn parse_config(text: &str) -> (r: Result<ConfigRecord, serde_json::Error>)
    ensures
        r is Ok <==> parsed_config(text@) is Some,
        r matches Ok(c) ==> parsed_config(text@) == Some(c@),
{
    match serde_json::from_str::<barnsley::config::Config>(text) {
        Ok(c) => Ok(ConfigRecord {
            width: c.image_settings.width,
            height: c.image_settings.height,
            path: c.image_settings.path,
            num_iterations: c.evaluation_settings.num_iterations,
            num_points: c.evaluation_settings.num_points,
            transforms: c.transforms,
        }),
        Err(e) => Err(e),
    }
}

/// Relies on `serde_json::to_string` of a `barnsley::config::Config`. It fails
/// only where a `Serialize` impl fails or a map has keys that are not
/// strings; the config holds integers, a string and transforms of floats
/// (non-finite ones are written as `null`), and no map, so it succeeds. The
/// text depends on the config alone. The record's fields are copied into the
/// config one for one.
#[verifier::external_body]
pub(crate) fn encode_config(c: &ConfigRecord) -> (r: Result<String, serde_json::Error>)
    ensures
        r is Ok,
        r matches Ok(s) ==> s@ == config_json(c@),
{
    let config = barnsley::config::Config {
        image_settings: barnsley::config::ImageSettings {
            width: c.width,
            height: c.height,
            path: c.path.clone(),
        },
        evaluation_settings: barnsley::config::EvaluationSettings {
            num_iterations: c.num_iterations,
            num_points: c.num_points,
        },
        transforms: c.transforms.clone(),
    };
    serde_json::to_string(&config)
}

/// The JSON text of `c`.
pub fn config_to_json(c: &ConfigRecord) -> (r: String)
    ensures
        r@ == config_json(c@),
{
    match encode_config(c) {
        Ok(s) => s,
        Err(_) => String::new(),
    }
}

/// A single-slot mailbox for configuration text. A send overwrites what is
/// there: of two sends before a take, the earlier text is lost.
pub struct ConfigMailbox {
    slot: Option<String>,
}

impl View for ConfigMailbox {
    type V = Option<Seq<char>>;

    closed spec fn view(&self) -> Option<Seq<char>> {
        match self.slot {
            Some(s) => Some(s@),
            None => None,
        }
    }
}

impl ConfigMailbox {
    /// An empty mailbox.
    pub fn new() -> (r: ConfigMailbox)
        ensures
            r@ is None,
    {
        ConfigMailbox { slot: None }
    }

    /// Puts `text` in the slot, replacing what was there.
    pub fn send(&mut self, text: String)
        ensures
            final(self)@ == Some(text@),
    {
        self.slot = Some(text);
    }

    /// Takes the text out of the slot, if there is one; never waits.
    pub fn try_take(&mut self) -> (r: Option<String>)
        ensures
            final(self)@ is None,
            old(self)@ is None <==> r is None,
            r matches Some(s) ==> old(self)@ == Some(s@),
    {
        self.slot.take()
    }
}

} // verus!
