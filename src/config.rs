//! The two settings a run needs, read from a JSON configuration text.
use vstd::prelude::*;
use vstd::string::StringExecFns;


verus! {

#[verifier::external_type_specification]
#[verifier::external_body]
pub struct ExJsonValue(json::JsonValue);

#[verifier::external_type_specification]
#[verifier::external_body]
pub struct ExJsonError(json::JsonError);

/// The configuration text is kept under this many characters. `json::parse`
/// lowers an `i16` exponent once per digit of a fraction and overflows past
/// `i16::MIN`; each digit is one character, so shorter texts are safe.
pub const MAX_CONFIG_CHARS: usize = 32768;

/// Whether `json::parse` accepts the text.
pub uninterp spec fn json_accepts(text: Seq<char>) -> bool;

/// The text of the string member `key` of the top-level object that
/// `json::parse` reads from `text`; `None` where the text does not parse, the
/// value is not an object, or the member is absent or not a string.
pub uninterp spec fn json_string_member(text: Seq<char>, key: Seq<char>) -> Option<Seq<char>>;

/// Relies on `json::parse`: parses the whole text as one JSON value; the
/// parser reads nothing but the text, so whether it succeeds depends on the
/// text alone.
#[verifier::external_body]
fn parse_json(text: &str) -> (r: Result<json::JsonValue, json::JsonError>)
    requires
        text@.len() < MAX_CONFIG_CHARS,
    ensures
        r is Ok <==> json_accepts(text@),
{
    json::parse(text)
}

/// Relies on `json::JsonError`'s `Display` impl for a readable message.
#[verifier::external_body]
fn json_error_text(e: &json::JsonError) -> String {
    e.to_string()
}

/// Relies on `json::parse`, on `json::JsonValue`'s indexing by a key (the
/// member under that key, `null` where there is none or the value is not an
/// object) and on `json::JsonValue::as_str` (the text of a string, `None` for
/// any other value).
#[verifier::external_body]
fn json_member_text(text: &str, key: &str) -> (r: Option<String>)
    requires
        text@.len() < MAX_CONFIG_CHARS,
    ensures
        r is Some <==> json_string_member(text@, key@) is Some,
        r is Some ==> r->Some_0@ == json_string_member(text@, key@)->Some_0,
{
    json::parse(text).ok().and_then(|v| v[key].as_str().map(|s| s.to_string()))
}

/// Where the installation lives and where the content to overlay comes from.
#[derive(Debug, Clone, PartialEq, Eq)]
pub struct Config {
    pub game_dir: String,
    pub mods_dir: String,
}

/// The key of the installation root in the configuration.
pub open spec fn game_dir_key() -> Seq<char> {
    seq!['g', 'a', 'm', 'e', 'D', 'i', 'r']
}

/// The key of the content directory in the configuration.
pub open spec fn mods_dir_key() -> Seq<char> {
    seq!['m', 'o', 'd', 's', 'D', 'i', 'r']
}

/// Builds the configuration from the two string fields as found. The
/// installation root is checked first.
pub fn config_from_fields(game_dir: Option<String>, mods_dir: Option<String>) -> (r: Result<Config, crate::error::Error>)
    ensures
        r is Ok <==> (game_dir is Some && mods_dir is Some),
        r is Ok ==> r->Ok_0 == (Config { game_dir: game_dir->Some_0, mods_dir: mods_dir->Some_0 }),
        game_dir is None ==> r is Err && r->Err_0 is ConfigFieldMissing && r->Err_0->ConfigFieldMissing_0@ == game_dir_key(),
        (game_dir is Some && mods_dir is None) ==> r is Err && r->Err_0 is ConfigFieldMissing
            && r->Err_0->ConfigFieldMissing_0@ == mods_dir_key(),
{
    proof {
        reveal_strlit("gameDir");
        reveal_strlit("modsDir");
    }
    match (game_dir, mods_dir) {
        (None, _) => {
            let k = String::from_str("gameDir");
            assert(k@ =~= game_dir_key());
            Err(crate::error::Error::ConfigFieldMissing(k))
        },
        (Some(_), None) => {
            let k = String::from_str("modsDir");
            assert(k@ =~= mods_dir_key());
            Err(crate::error::Error::ConfigFieldMissing(k))
        },
        (Some(g), Some(m)) => Ok(Config { game_dir: g, mods_dir: m }),
    }
}

/// Reads the configuration from its JSON text: the string members `gameDir`
/// and `modsDir` of the top-level object.
pub fn load_config(text: &str) -> (r: Result<Config, crate::error::Error>)
    requires
        text@.len() < MAX_CONFIG_CHARS,
    ensures
        !json_accepts(text@) ==> r is Err && r->Err_0 is ConfigUnparsable,
        json_accepts(text@) ==> {
            let game_dir = json_string_member(text@, game_dir_key());
            let mods_dir = json_string_member(text@, mods_dir_key());
            &&& (r is Ok <==> (game_dir is Some && mods_dir is Some))
            &&& r is Ok ==> r->Ok_0.game_dir@ == game_dir->Some_0 && r->Ok_0.mods_dir@ == mods_dir->Some_0
            &&& game_dir is None ==> r is Err && r->Err_0 is ConfigFieldMissing
                && r->Err_0->ConfigFieldMissing_0@ == game_dir_key()
            &&& (game_dir is Some && mods_dir is None) ==> r is Err && r->Err_0 is ConfigFieldMissing
                && r->Err_0->ConfigFieldMissing_0@ == mods_dir_key()
        },
{
    match parse_json(text) {
        Err(e) => Err(crate::error::Error::ConfigUnparsable(json_error_text(&e))),
        Ok(_) => {
            proof {
                reveal_strlit("gameDir");
                reveal_strlit("modsDir");
                assert("gameDir"@ =~= game_dir_key());
                assert("modsDir"@ =~= mods_dir_key());
            }
            let game_dir = json_member_text(text, "gameDir");
            let mods_dir = json_member_text(text, "modsDir");
            config_from_fields(game_dir, mods_dir)
        },
    }
}

} // verus!
