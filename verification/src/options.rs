//! Build option resolution: each option takes the first present value
//! of command line over environment, with the documented defaults, and
//! a URL or Gist source suppresses any local input path. The local
//! configuration file is picked as the first existing candidate.

use vstd::prelude::*;

use crate::model::ColorScheme;
use crate::strutil::{lower_seq, str_eq, to_ascii_lower};

verus! {

/// The first present of two optional values.
pub open spec fn first_opt<T>(a: Option<T>, b: Option<T>) -> Option<T> {
    if a is Some {
        a
    } else {
        b
    }
}

/// The build options as the command line gave them.
pub struct CliBuildOptions {
    pub input: Option<String>,
    pub input_url: Option<String>,
    pub gist_id: Option<String>,
    pub gist_file: Option<String>,
    pub github_token: Option<String>,
    pub auth_scheme: Option<String>,
    pub out: Option<String>,
    pub static_dir: Option<String>,
    pub theme: Option<String>,
    pub base_path: Option<String>,
    pub no_intranet: bool,
    pub color_scheme: Option<ColorScheme>,
    pub title: Option<String>,
    pub description: Option<String>,
    pub build_version: Option<String>,
    pub icon_dir: Option<String>,
    pub icon_threads: Option<usize>,
    pub generate_intermediate_page: Option<bool>,
}

/// The build options as the environment gave them.
pub struct EnvBuildOptions {
    pub input: Option<String>,
    pub input_url: Option<String>,
    pub gist_id: Option<String>,
    pub gist_file: Option<String>,
    pub github_token: Option<String>,
    pub auth_scheme: Option<String>,
    pub out: Option<String>,
    pub static_dir: Option<String>,
    pub theme: Option<String>,
    pub theme_dir: Option<String>,
    pub base_path: Option<String>,
    pub no_intranet: bool,
    pub color_scheme: Option<ColorScheme>,
    pub title: Option<String>,
    pub description: Option<String>,
    pub build_version: Option<String>,
    pub icon_dir: Option<String>,
    pub icon_threads: Option<usize>,
    pub generate_intermediate_page: Option<bool>,
}

/// The options a build runs with.
pub struct BuildOptions {
    pub input: Option<String>,
    pub input_url: Option<String>,
    pub gist_id: Option<String>,
    pub gist_file: Option<String>,
    pub github_token: Option<String>,
    pub auth_scheme: Option<String>,
    pub out: String,
    pub static_dir: Option<String>,
    pub theme: Option<String>,
    pub base_path: Option<String>,
    pub no_intranet: bool,
    pub color_scheme: Option<ColorScheme>,
    pub title: Option<String>,
    pub description: Option<String>,
    pub build_version: Option<String>,
    pub icon_dir: String,
    pub icon_threads: usize,
    pub generate_intermediate_page: bool,
}

/// Resolves the effective build options: the command line wins over the
/// environment, the theme falls back through both theme variables, the
/// output directory defaults to `dist`, the icon directory to
/// `assets/icons`, the worker count to eight and at least one, and
/// intermediate pages to on; a URL or Gist source clears the local
/// input path.
pub fn resolve_build_options(cli: CliBuildOptions, env: EnvBuildOptions) -> (r: BuildOptions)
    ensures
        r.input_url == first_opt(cli.input_url, env.input_url),
        r.gist_id == first_opt(cli.gist_id, env.gist_id),
        r.input == (if first_opt(cli.input_url, env.input_url) is Some || first_opt(
            cli.gist_id,
            env.gist_id,
        ) is Some {
            None::<String>
        } else {
            first_opt(cli.input, env.input)
        }),
        r.gist_file == first_opt(cli.gist_file, env.gist_file),
        r.github_token == first_opt(cli.github_token, env.github_token),
        r.auth_scheme == first_opt(cli.auth_scheme, env.auth_scheme),
        r.out@ == (match first_opt(cli.out, env.out) {
            Some(o) => o@,
            None => "dist"@,
        }),
        r.static_dir == first_opt(cli.static_dir, env.static_dir),
        r.theme == first_opt(cli.theme, first_opt(env.theme, env.theme_dir)),
        r.base_path == first_opt(cli.base_path, env.base_path),
        r.no_intranet == (cli.no_intranet || env.no_intranet),
        r.color_scheme == first_opt(cli.color_scheme, env.color_scheme),
        r.title == first_opt(cli.title, env.title),
        r.description == first_opt(cli.description, env.description),
        r.build_version == first_opt(cli.build_version, env.build_version),
        r.icon_dir@ == (match first_opt(cli.icon_dir, env.icon_dir) {
            Some(d) => d@,
            None => "assets/icons"@,
        }),
        r.icon_threads == (match first_opt(cli.icon_threads, env.icon_threads) {
            Some(t) => if t >= 1 {
                t
            } else {
                1
            },
            None => 8,
        }),
        r.generate_intermediate_page == (match first_opt(
            cli.generate_intermediate_page,
            env.generate_intermediate_page,
        ) {
            Some(g) => g,
            None => true,
        }),
{
    let input_url = or_string(cli.input_url, env.input_url);
    let gist_id = or_string(cli.gist_id, env.gist_id);
    let mut input = or_string(cli.input, env.input);
    if input_url.is_some() || gist_id.is_some() {
        input = None;
    }
    let out: String = match or_string(cli.out, env.out) {
        Some(o) => o,
        None => "dist".to_owned(),
    };
    let theme = or_string(cli.theme, or_string(env.theme, env.theme_dir));
    let icon_dir: String = match or_string(cli.icon_dir, env.icon_dir) {
        Some(d) => d,
        None => "assets/icons".to_owned(),
    };
    let icon_threads: usize = match cli.icon_threads {
        Some(t) => if t >= 1 {
            t
        } else {
            1
        },
        None => match env.icon_threads {
            Some(t) => if t >= 1 {
                t
            } else {
                1
            },
            None => 8,
        },
    };
    let generate_intermediate_page: bool = match cli.generate_intermediate_page {
        Some(g) => g,
        None => match env.generate_intermediate_page {
            Some(g) => g,
            None => true,
        },
    };
    let color_scheme: Option<ColorScheme> = match cli.color_scheme {
        Some(c) => Some(c),
        None => env.color_scheme,
    };
    BuildOptions {
        input,
        input_url,
        gist_id,
        gist_file: or_string(cli.gist_file, env.gist_file),
        github_token: or_string(cli.github_token, env.github_token),
        auth_scheme: or_string(cli.auth_scheme, env.auth_scheme),
        out,
        static_dir: or_string(cli.static_dir, env.static_dir),
        theme,
        base_path: or_string(cli.base_path, env.base_path),
        no_intranet: cli.no_intranet || env.no_intranet,
        color_scheme,
        title: or_string(cli.title, env.title),
        description: or_string(cli.description, env.description),
        build_version: or_string(cli.build_version, env.build_version),
        icon_dir,
        icon_threads,
        generate_intermediate_page,
    }
}

fn or_string(a: Option<String>, b: Option<String>) -> (r: Option<String>)
    ensures
        r == first_opt(a, b),
{
    match a {
        Some(v) => Some(v),
        None => b,
    }
}

/// The truthy words of a boolean variable, checked on the ASCII-lowered
/// text: `1`, `true`, `on`, `yes`, `y`; everything else is false.
pub open spec fn truthy_spec(s: Seq<char>) -> bool {
    let t = lower_seq(s);
    t == "1"@ || t == "true"@ || t == "on"@ || t == "yes"@ || t == "y"@
}

/// Whether a boolean variable's text counts as true.
pub fn parse_truthy(s: &str) -> (r: bool)
    ensures
        r == truthy_spec(s@),
{
    let t = to_ascii_lower(s);
    str_eq(t.as_str(), "1") || str_eq(t.as_str(), "true") || str_eq(t.as_str(), "on") || str_eq(
        t.as_str(),
        "yes",
    ) || str_eq(t.as_str(), "y")
}

// ---------------------------------------------------------------------------
// Configuration file discovery
// ---------------------------------------------------------------------------

/// The first candidate marked as existing, in order.
pub open spec fn first_existing(cands: Seq<(String, bool)>) -> Option<Seq<char>>
    decreases cands.len(),
{
    if cands.len() == 0 {
        None
    } else if cands[0].1 {
        Some(cands[0].0@)
    } else {
        first_existing(cands.drop_first())
    }
}

/// What the local discovery resolves to: the explicit path when it
/// exists, else the first existing candidate.
pub open spec fn resolve_local_spec(
    explicit: Option<Seq<char>>,
    explicit_exists: bool,
    cands: Seq<(String, bool)>,
) -> Option<Seq<char>> {
    match explicit {
        Some(p) => if explicit_exists {
            Some(p)
        } else {
            first_existing(cands)
        },
        None => first_existing(cands),
    }
}

/// Picks the local configuration file: the explicit path when it
/// exists, else the first existing of the well-known candidates handed
/// in priority order, each with its existence.
pub fn _resolve_local_config_path(
    explicit: Option<&String>,
    explicit_exists: bool,
    candidates: &Vec<(String, bool)>,
) -> (r: Option<String>)
    ensures
        match r {
            Some(p) => resolve_local_spec(
                match explicit {
                    Some(e) => Some(e@),
                    None => None,
                },
                explicit_exists,
                candidates@,
            ) == Some(p@),
            None => resolve_local_spec(
                match explicit {
                    Some(e) => Some(e@),
                    None => None,
                },
                explicit_exists,
                candidates@,
            ) is None,
        },
{
    match explicit {
        Some(p) => {
            if explicit_exists {
                return Some(p.clone());
            }
        },
        None => {},
    }
    let mut i: usize = 0;
    assert(candidates@.subrange(0, candidates@.len() as int) =~= candidates@);
    while i < candidates.len()
        invariant
            explicit is Some ==> !explicit_exists,
            i <= candidates@.len(),
            first_existing(candidates@) == first_existing(
                candidates@.subrange(i as int, candidates@.len() as int),
            ),
        decreases candidates@.len() - i,
    {
        proof {
            let suf = candidates@.subrange(i as int, candidates@.len() as int);
            assert(suf[0] == candidates@[i as int]);
            assert(suf.drop_first() =~= candidates@.subrange(i + 1, candidates@.len() as int));
        }
        if candidates[i].1 {
            proof {
                let suf = candidates@.subrange(i as int, candidates@.len() as int);
                assert(suf[0].1);
                assert(first_existing(suf) == Some(suf[0].0@));
                assert(first_existing(candidates@) == Some(candidates@[i as int].0@));
            }
            return Some(candidates[i].0.clone());
        }
        i = i + 1;
    }
    assert(candidates@.subrange(candidates@.len() as int, candidates@.len() as int) =~= Seq::<
        (String, bool),
    >::empty());
    None
}

/// Resolves only an explicitly given path, with no discovery: the path
/// when it was given and exists, else nothing.
pub fn _resolve_explicit_config_path(explicit: Option<&String>, exists: bool) -> (r: Option<
    String,
>)
    ensures
        match (explicit, exists) {
            (Some(p), true) => r matches Some(x) && x@ == p@,
            _ => r is None,
        },
{
    match explicit {
        Some(p) => if exists {
            Some(p.clone())
        } else {
            None
        },
        None => None,
    }
}

} // verus!
