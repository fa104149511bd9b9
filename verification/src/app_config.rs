//! Where the application keeps its extensions, storage and logs: the
//! defaults under the user's home, the user's own choices from
//! `~/.dscode/config.json`, and how a `~` in a configured path is resolved.
use vstd::prelude::*;
use crate::json::{JsonValue, JsonView, json_get};
use crate::contributions::{str_field, string_field};
use crate::text::{owned, str_eq, starts_with, starts_with_spec, chars_of, string_of_range, concat, opt_view};

verus! {

/// The directories the application uses.
pub struct AppDirectories {
    pub extensions_dir: String,
    pub storage_dir: String,
    pub logs_dir: String,
}

/// The directories the user's configuration names, where it names them.
pub struct UserConfiguredPaths {
    pub extensions: Option<String>,
    pub storage: Option<String>,
    pub logs: Option<String>,
}

/// `base` joined with `comp` as `Path::join` joins on Unix: an absolute
/// `comp` replaces `base`; otherwise a `/` separates them unless `base` is
/// empty or already ends with one.
pub open spec fn path_join(base: Seq<char>, comp: Seq<char>) -> Seq<char> {
    if comp.len() > 0 && comp[0] == '/' {
        comp
    } else if base.len() == 0 {
        comp
    } else if base.last() == '/' {
        base + comp
    } else {
        base.push('/') + comp
    }
}

/// `base` joined with `comp`.
pub fn join_path(base: &str, comp: &str) -> (r: String)
    ensures
        r@ == path_join(base@, comp@),
{
    let b = chars_of(base);
    let c = chars_of(comp);
    if c.len() > 0 && c[0] == '/' {
        owned(comp)
    } else if b.len() == 0 {
        owned(comp)
    } else if b[b.len() - 1] == '/' {
        concat(base, comp)
    } else {
        let mut first = owned(base);
        crate::text::push_char(&mut first, '/');
        concat(first.as_str(), comp)
    }
}

/// The user's home directory as `directories::BaseDirs` finds it; it depends
/// on the environment, so nothing is stated of it.
#[verifier::external_body]
fn user_home_dir() -> (r: Option<String>) {
    match directories::BaseDirs::new() {
        Some(base) => Some(base.home_dir().to_string_lossy().to_string()),
        None => None,
    }
}

/// The application's base directory: `.dscode` under the home directory
/// (`home`, else `env_home`), else `dscode` under the temporary directory.
pub open spec fn base_dir_spec(home: Option<Seq<char>>, env_home: Option<Seq<char>>, temp_dir: Seq<char>) -> Seq<char> {
    match home {
        Some(h) => path_join(h, ".dscode"@),
        None => match env_home {
            Some(h) => path_join(h, ".dscode"@),
            None => path_join(temp_dir, "dscode"@),
        },
    }
}

/// The application's base directory, from the home directory the
/// environment gives, the `HOME` variable, and the temporary directory.
pub fn base_dir_from(home: Option<String>, env_home: Option<String>, temp_dir: &str) -> (r: String)
    ensures
        r@ == base_dir_spec(opt_view(home), opt_view(env_home), temp_dir@),
{
    match home {
        Some(h) => join_path(h.as_str(), ".dscode"),
        None => match env_home {
            Some(h) => join_path(h.as_str(), ".dscode"),
            None => join_path(temp_dir, "dscode"),
        },
    }
}

/// The application's base directory for the home directory found in the
/// environment, with the `HOME` variable and the temporary directory as
/// fallbacks.
pub fn default_base_dir(env_home: Option<String>, temp_dir: &str) -> (r: String)
    ensures
        exists|h: Option<Seq<char>>| r@ == #[trigger] base_dir_spec(h, opt_view(env_home), temp_dir@),
{
    let home = user_home_dir();
    let r = base_dir_from(home, env_home, temp_dir);
    assert(r@ == base_dir_spec(opt_view(home), opt_view(env_home), temp_dir@));
    r
}

/// Where extensions go by default, under the base directory.
pub fn default_extensions_dir(base_dir: &str) -> (r: String)
    ensures
        r@ == path_join(base_dir@, "extensions"@),
{
    join_path(base_dir, "extensions")
}

/// Where storage goes by default, under the base directory.
pub fn default_storage_dir(base_dir: &str) -> (r: String)
    ensures
        r@ == path_join(base_dir@, "storage"@),
{
    join_path(base_dir, "storage")
}

/// Where logs go by default, under the base directory.
pub fn default_logs_dir(base_dir: &str) -> (r: String)
    ensures
        r@ == path_join(base_dir@, "logs"@),
{
    join_path(base_dir, "logs")
}

/// A configured path with a leading `~` resolved against the home directory
/// (`home`, else `env_home`); other paths stay as they are.
pub open spec fn normalize_spec(path: Seq<char>, home: Option<Seq<char>>, env_home: Option<Seq<char>>) -> Result<
    Seq<char>,
    Seq<char>,
> {
    let h = match home {
        Some(h) => Some(h),
        None => env_home,
    };
    if path == "~"@ {
        match h {
            Some(h) => Ok(h),
            None => Err("Unable to resolve home directory for '~' path"@),
        }
    } else if starts_with_spec(path, "~/"@) {
        match h {
            Some(h) => Ok(path_join(h, path.skip(2))),
            None => Err("Unable to resolve home directory for '~/...' path"@),
        }
    } else {
        Ok(path)
    }
}

/// A configured path with a leading `~` resolved against `home`, else
/// `env_home`.
pub fn normalize_path_with(path: String, home: Option<String>, env_home: Option<String>) -> (r: Result<String, String>)
    ensures
        match r {
            Ok(p) => normalize_spec(path@, opt_view(home), opt_view(env_home)) == Ok::<Seq<char>, Seq<char>>(p@),
            Err(e) => normalize_spec(path@, opt_view(home), opt_view(env_home)) == Err::<Seq<char>, Seq<char>>(e@),
        },
{
    let h = match home {
        Some(h) => Some(h),
        None => env_home,
    };
    if str_eq(path.as_str(), "~") {
        return match h {
            Some(h) => Ok(h),
            None => Err(owned("Unable to resolve home directory for '~' path")),
        };
    }
    if starts_with(path.as_str(), "~/") {
        proof {
            reveal_strlit("~/");
        }
        let cs = chars_of(path.as_str());
        let rest = string_of_range(&cs, 2, cs.len());
        assert(rest@ =~= path@.skip(2));
        return match h {
            Some(h) => Ok(join_path(h.as_str(), rest.as_str())),
            None => Err(owned("Unable to resolve home directory for '~/...' path")),
        };
    }
    Ok(path)
}

/// A configured path with a leading `~` resolved against the home directory
/// found in the environment, else the `HOME` variable.
pub fn normalize_path(path: String, env_home: Option<String>) -> (r: Result<String, String>)
    ensures
        exists|h: Option<Seq<char>>| #[trigger] normalize_spec(path@, h, opt_view(env_home)) == match r {
            Ok(p) => Ok::<Seq<char>, Seq<char>>(p@),
            Err(e) => Err::<Seq<char>, Seq<char>>(e@),
        },
{
    let home = user_home_dir();
    let ghost hv = opt_view(home);
    let ghost p = path@;
    let r = normalize_path_with(path, home, env_home);
    assert(normalize_spec(p, hv, opt_view(env_home)) == match r {
        Ok(q) => Ok::<Seq<char>, Seq<char>>(q@),
        Err(e) => Err::<Seq<char>, Seq<char>>(e@),
    });
    r
}

/// The first of `keys` under which `obj` holds a string.
pub open spec fn first_string(obj: JsonView, keys: Seq<Seq<char>>) -> Option<Seq<char>>
    decreases keys.len(),
{
    if keys.len() == 0 {
        None
    } else if str_field(obj, keys[0]) is Some {
        str_field(obj, keys[0])
    } else {
        first_string(obj, keys.drop_first())
    }
}

/// A path the configuration names under one of `keys`: at the top level
/// first, then inside the `scoped` object.
pub open spec fn extract_path_spec(value: JsonView, keys: Seq<Seq<char>>, scoped: Option<Seq<char>>) -> Option<Seq<char>> {
    match first_string(value, keys) {
        Some(p) => Some(p),
        None => match scoped {
            Some(k) => match json_get(value, k) {
                Some(scope) => first_string(scope, keys),
                None => None,
            },
            None => None,
        },
    }
}

fn first_string_exec(obj: &JsonValue, keys: &[&str]) -> (r: Option<String>)
    ensures
        opt_view(r) == first_string(obj@, keys@.map_values(|k: &str| k@)),
{
    let ghost ks = keys@.map_values(|k: &str| k@);
    let mut i: usize = 0;
    assert(ks.skip(0) =~= ks);
    while i < keys.len()
        invariant
            i <= keys@.len(),
            ks == keys@.map_values(|k: &str| k@),
            first_string(obj@, ks) == first_string(obj@, ks.skip(i as int)),
        decreases keys@.len() - i,
    {
        assert(ks.skip(i as int)[0] == keys@[i as int]@);
        assert(ks.skip(i as int).drop_first() =~= ks.skip(i + 1));
        match string_field(obj, keys[i]) {
            Some(p) => {
                return Some(p);
            },
            None => {},
        }
        i = i + 1;
    }
    assert(ks.skip(i as int) =~= Seq::<Seq<char>>::empty());
    None
}

/// A path the configuration names under one of `keys`: at the top level
/// first, then inside the `scoped` object.
pub fn extract_path(value: &JsonValue, keys: &[&str], scoped: Option<&str>) -> (r: Option<String>)
    ensures
        opt_view(r) == extract_path_spec(
            value@,
            keys@.map_values(|k: &str| k@),
            match scoped {
                Some(s) => Some(s@),
                None => None,
            },
        ),
{
    match first_string_exec(value, keys) {
        Some(p) => Some(p),
        None => match scoped {
            Some(k) => match value.get(k) {
                Some(scope) => first_string_exec(scope, keys),
                None => None,
            },
            None => None,
        },
    }
}

/// The paths a user configuration names: `extensionsDir`, `storageDir` and
/// `logsDir` (or their snake-case spellings), at the top level or under
/// `paths`.
pub fn user_paths_from_config(value: &JsonValue) -> (r: UserConfiguredPaths)
    ensures
        opt_view(r.extensions) == extract_path_spec(value@, seq!["extensionsDir"@, "extensions_dir"@], Some("paths"@)),
        opt_view(r.storage) == extract_path_spec(value@, seq!["storageDir"@, "storage_dir"@], Some("paths"@)),
        opt_view(r.logs) == extract_path_spec(value@, seq!["logsDir"@, "logs_dir"@], Some("paths"@)),
{
    let ek: [&str; 2] = ["extensionsDir", "extensions_dir"];
    let sk: [&str; 2] = ["storageDir", "storage_dir"];
    let lk: [&str; 2] = ["logsDir", "logs_dir"];
    let extensions = extract_path(value, ek.as_slice(), Some("paths"));
    let storage = extract_path(value, sk.as_slice(), Some("paths"));
    let logs = extract_path(value, lk.as_slice(), Some("paths"));
    assert(ek@.map_values(|k: &str| k@) =~= seq!["extensionsDir"@, "extensions_dir"@]);
    assert(sk@.map_values(|k: &str| k@) =~= seq!["storageDir"@, "storage_dir"@]);
    assert(lk@.map_values(|k: &str| k@) =~= seq!["logsDir"@, "logs_dir"@]);
    UserConfiguredPaths { extensions, storage, logs }
}

/// The directories before `~` is resolved: the extensions directory from
/// the environment override, else the user's configuration, else the
/// default; storage and logs from the configuration, else the defaults.
pub fn preferred_directories(env_extensions: Option<String>, user: UserConfiguredPaths, base_dir: &str) -> (r: AppDirectories)
    ensures
        r.extensions_dir@ == match env_extensions {
            Some(e) => e@,
            None => match user.extensions {
                Some(e) => e@,
                None => path_join(base_dir@, "extensions"@),
            },
        },
        r.storage_dir@ == match user.storage {
            Some(s) => s@,
            None => path_join(base_dir@, "storage"@),
        },
        r.logs_dir@ == match user.logs {
            Some(l) => l@,
            None => path_join(base_dir@, "logs"@),
        },
{
    let extensions_dir = match env_extensions {
        Some(e) => e,
        None => match user.extensions {
            Some(e) => e,
            None => default_extensions_dir(base_dir),
        },
    };
    let storage_dir = match user.storage {
        Some(s) => s,
        None => default_storage_dir(base_dir),
    };
    let logs_dir = match user.logs {
        Some(l) => l,
        None => default_logs_dir(base_dir),
    };
    AppDirectories { extensions_dir, storage_dir, logs_dir }
}

} // verus!
