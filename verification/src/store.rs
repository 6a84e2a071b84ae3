//! Locating the configuration file and deciding between loading it and
//! creating it. The filesystem itself stays outside: callers hand in the
//! file's content (or its absence) and receive the text to write back.

use vstd::prelude::*;

use crate::codec::lemma_render_config_injective;
use crate::codec::parse_config;
use crate::codec::render_config;
use crate::codec::spec_render_config;
use crate::config::Config;
use crate::config::FetchError;
use crate::config::spec_default_config;

verus! {

/// The configuration file path under a given home directory.
pub open spec fn spec_config_path(home: Seq<char>) -> Seq<char> {
    home + "/.config/CoreFetch/config.toml"@
}

/// Build the configuration file path from a home directory.
pub fn config_path_for_home(home: &str) -> (r: String)
    ensures
        r@ == spec_config_path(home@),
{
    let mut p = String::from_str(home);
    p.append("/.config/CoreFetch/config.toml");
    p
}

/// Relies on dirs::home_dir: the platform's home directory, if any.
/// `None` also stands for a home path that is not valid text.
#[verifier::external_body]
fn query_home_dir() -> (r: Option<String>) {
    dirs::home_dir().and_then(|p| p.to_str().map(|s| s.to_owned()))
}

/// Resolve the configuration file path from the environment. The exact
/// shape of the path for a known home directory is fixed by
/// `config_path_for_home`; here only the environment lookup can fail.
pub fn resolve_config_path() -> (r: Result<String, FetchError>)
    ensures
        r matches Ok(p) ==> exists|home: Seq<char>| p@ == spec_config_path(home),
        r matches Err(e) ==> e == FetchError::Environment,
{
    match query_home_dir() {
        Some(home) => {
            let p = config_path_for_home(home.as_str());
            proof {
                assert(p@ == spec_config_path(home@));
            }
            Ok(p)
        },
        None => Err(FetchError::Environment),
    }
}

/// What a completed load-or-initialize run produced: the configuration
/// to use, and, when the file was absent, the text that must be written
/// to create it.
pub struct Loaded {
    pub config: Config,
    pub generated: Option<String>,
}

/// The view of an optional borrowed file content.
pub open spec fn view_opt_str(o: Option<&str>) -> Option<Seq<char>> {
    match o {
        Some(s) => Some(s@),
        None => None,
    }
}

/// The load-or-initialize decision on a file's content (`None`: the
/// file does not exist). Absence yields the defaults together with
/// their canonical text, to be written once; presence parses the
/// content and never writes.
pub open spec fn spec_load_or_initialize(existing: Option<Seq<char>>) -> Result<
    (Config, Option<Seq<char>>),
    FetchError,
> {
    match existing {
        None => Ok(
            (spec_default_config(), Some(spec_render_config(spec_default_config()))),
        ),
        Some(s) => if exists|c: Config| s == spec_render_config(c) {
            Ok(((choose|c: Config| s == spec_render_config(c)), None))
        } else {
            Err(FetchError::Parse)
        },
    }
}

/// Initializing twice without external file modification is idempotent:
/// the first run on an absent file yields the defaults and the text to
/// write, once; a second run that reads back exactly that text yields
/// the same configuration and writes nothing.
pub proof fn lemma_load_or_initialize_idempotent()
    ensures
        spec_load_or_initialize(None) == Ok::<(Config, Option<Seq<char>>), FetchError>(
            (spec_default_config(), Some(spec_render_config(spec_default_config()))),
        ),
        spec_load_or_initialize(Some(spec_render_config(spec_default_config()))) == Ok::<
            (Config, Option<Seq<char>>),
            FetchError,
        >((spec_default_config(), None)),
{
    let d = spec_default_config();
    let s = spec_render_config(d);
    assert(s == spec_render_config(d));
    assert(exists|c: Config| s == spec_render_config(c));
    let c0 = choose|c: Config| s == spec_render_config(c);
    lemma_render_config_injective(c0, d);
}

/// Load the configuration if the file exists, otherwise produce the
/// defaults and the text to create the file with. At most one write per
/// run, and never a read after a write.
pub fn load_or_initialize(existing: Option<&str>) -> (r: Result<Loaded, FetchError>)
    ensures
        r is Ok <==> spec_load_or_initialize(view_opt_str(existing)) is Ok,
        r matches Ok(l) ==> (spec_load_or_initialize(view_opt_str(existing)) matches Ok(p)
            && l.config == p.0 && (l.generated matches Some(t) ==> p.1 matches Some(u) && t@ == u)
            && (l.generated is None <==> p.1 is None)),
        r matches Err(e) ==> spec_load_or_initialize(view_opt_str(existing)) == Err::<
            (Config, Option<Seq<char>>),
            FetchError,
        >(e),
{
    match existing {
        None => {
            let c = Config::default();
            let text = render_config(&c);
            Ok(Loaded { config: c, generated: Some(text) })
        },
        Some(s) => match parse_config(s) {
            Ok(c) => {
                proof {
                    let c0 = choose|c0: Config| s@ == spec_render_config(c0);
                    lemma_render_config_injective(c0, c);
                }
                Ok(Loaded { config: c, generated: None })
            },
            Err(e) => Err(e),
        },
    }
}

} // verus!
