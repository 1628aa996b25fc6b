//! Load orchestration: seed from the OS environment, merge the shared
//! `common` file, then the kind-specific file, into one immutable result.

use vstd::prelude::*;

use crate::config::Config;
use crate::config::ConfigView;
use crate::error::Error;
use crate::kind::Kind;
use crate::parse::file_binds;
use crate::parse::file_bound_value;
use crate::parse::lemma_bound_key_value;
use crate::parse::lemma_unbound_key_untouched;
use crate::parse::lines_ok;
use crate::parse::parse_props;
use crate::parse::props_after;
use crate::props::Props;

verus! {

/// The mathematical content of an `Environment`.
pub ghost struct EnvironmentView {
    /// The kind that was loaded.
    pub current: Kind,
    /// The merged property mapping.
    pub props: Map<Seq<char>, Seq<char>>,
}

/// The immutable result of a load: the resolved kind and its merged
/// property mapping. Created only by `load`; never mutated afterwards.
#[derive(Clone, Debug)]
pub struct Environment {
    current: Kind,
    props: Props,
}

impl View for Environment {
    type V = EnvironmentView;

    closed spec fn view(&self) -> EnvironmentView {
        EnvironmentView { current: self.current, props: self.props@ }
    }
}

impl Environment {
    /// The property mapping keeps its keys unique.
    pub closed spec fn wf(&self) -> bool {
        self.props.wf()
    }

    /// The kind this environment was loaded for.
    pub fn current(&self) -> (r: Kind)
        ensures
            r == self@.current,
    {
        self.current
    }

    /// The merged key-value pairs of this environment.
    pub fn props(&self) -> (r: &Props)
        requires
            self.wf(),
        ensures
            r.wf(),
            r@ == self@.props,
    {
        &self.props
    }
}

/// The mapping seeded by OS-environment pairs taken in order, later pairs
/// winning on equal keys.
pub open spec fn pairs_map(
    pairs: Seq<(String, String)>,
    acc: Map<Seq<char>, Seq<char>>,
) -> Map<Seq<char>, Seq<char>>
    decreases pairs.len(),
{
    if pairs.len() == 0 {
        acc
    } else {
        pairs_map(pairs.drop_first(), acc.insert(pairs[0].0@, pairs[0].1@))
    }
}

/// The outcome of merging one file into `acc`: an unreadable file is an
/// `IoFailure`, a file with a bad line an `InvalidProperty`, and otherwise
/// the lines are folded into the mapping in order.
pub open spec fn file_step(
    file: Option<Seq<Seq<char>>>,
    comments: bool,
    comment_char: char,
    acc: Map<Seq<char>, Seq<char>>,
) -> Result<Map<Seq<char>, Seq<char>>, Error> {
    match file {
        None => Err(Error::IoFailure),
        Some(lines) => if lines_ok(lines, comments, comment_char) {
            Ok(props_after(lines, comments, comment_char, acc))
        } else {
            Err(Error::InvalidProperty)
        },
    }
}

/// The outcome a load request denotes: seed from the OS environment when
/// asked, merge the `common` file when asked, then the kind file, each
/// later source overwriting earlier bindings key by key; the first failing
/// step decides the error.
pub open spec fn load_map(
    cfg: ConfigView,
    os_vars: Seq<(String, String)>,
    common_file: Option<Seq<Seq<char>>>,
    kind_file: Option<Seq<Seq<char>>>,
) -> Result<Map<Seq<char>, Seq<char>>, Error> {
    let seed = if cfg.os {
        pairs_map(os_vars, Map::empty())
    } else {
        Map::empty()
    };
    let after_common = if cfg.common {
        file_step(common_file, cfg.comments, cfg.comment_char, seed)
    } else {
        Ok(seed)
    };
    match after_common {
        Err(e) => Err(e),
        Ok(m) => file_step(kind_file, cfg.comments, cfg.comment_char, m),
    }
}

/// The lines of a file as read by the caller, or `None` where the file
/// could not be read.
pub open spec fn file_view(file: &Option<Vec<String>>) -> Option<Seq<Seq<char>>> {
    match file {
        None => None,
        Some(lines) => Some(lines.deep_view()),
    }
}

/// Produce the environment a configuration asks for, from the sources the
/// caller read: the OS-environment pairs, the lines of the shared `common`
/// file and of the kind-specific file (`None` for a file that could not be
/// read). Precedence is fixed: OS environment, then `common`, then the
/// kind file, later sources overwriting earlier ones key by key. The first
/// failure aborts the whole load and no partial environment is returned.
pub fn load(
    config: &Config,
    os_vars: &Vec<(String, String)>,
    common_file: &Option<Vec<String>>,
    kind_file: &Option<Vec<String>>,
) -> (r: Result<Environment, Error>)
    ensures
        match r {
            Ok(env) => env.wf() && env@.current == config@.kind && load_map(
                config@,
                os_vars@,
                file_view(common_file),
                file_view(kind_file),
            ) == Ok::<Map<Seq<char>, Seq<char>>, Error>(env@.props),
            Err(e) => load_map(
                config@,
                os_vars@,
                file_view(common_file),
                file_view(kind_file),
            ) == Err::<Map<Seq<char>, Seq<char>>, Error>(e),
        },
{
    let mut props = Props::new();
    if config.os() {
        let ghost all = os_vars@;
        proof {
            assert(all.skip(0) =~= all);
        }
        let n = os_vars.len();
        let mut i: usize = 0;
        while i < n
            invariant
                i <= n,
                n == all.len(),
                all == os_vars@,
                props.wf(),
                pairs_map(all, Map::empty()) == pairs_map(all.skip(i as int), props@),
            decreases n - i,
        {
            proof {
                assert(all.skip(i as int).len() > 0);
                assert(all.skip(i as int)[0] == all[i as int]);
                assert(all.skip(i as int).drop_first() =~= all.skip(i + 1));
            }
            let key = os_vars[i].0.clone();
            let value = os_vars[i].1.clone();
            props.insert(key, value);
            i = i + 1;
        }
        proof {
            assert(all.skip(n as int) =~= Seq::<(String, String)>::empty());
        }
    }
    if config.common() {
        match common_file {
            None => {
                return Err(Error::IoFailure);
            },
            Some(lines) => {
                match parse_props(lines, config.comments(), config.comment_char(), &mut props) {
                    Ok(()) => (),
                    Err(e) => {
                        return Err(e);
                    },
                }
            },
        }
    }
    match kind_file {
        None => Err(Error::IoFailure),
        Some(lines) => {
            match parse_props(lines, config.comments(), config.comment_char(), &mut props) {
                Ok(()) => Ok(Environment { current: config.kind(), props }),
                Err(e) => Err(e),
            }
        },
    }
}

/// Law: an unreadable kind-specific file fails the load with `IoFailure`,
/// whether the common file is read at all, is itself unreadable, or is read
/// cleanly (only a malformed common file fails earlier, with
/// `InvalidProperty`).
pub proof fn lemma_missing_kind_file_is_io_failure(
    cfg: ConfigView,
    os_vars: Seq<(String, String)>,
    common_file: Option<Seq<Seq<char>>>,
)
    requires
        match common_file {
            Some(lines) => cfg.common ==> lines_ok(lines, cfg.comments, cfg.comment_char),
            None => true,
        },
    ensures
        load_map(cfg, os_vars, common_file, None) == Err::<Map<Seq<char>, Seq<char>>, Error>(
            Error::IoFailure,
        ),
{
}

/// Law: a key the kind-specific file binds ends with that file's value in
/// the loaded mapping, whatever the OS seed or the common file bound it to.
pub proof fn lemma_kind_file_overrides(
    cfg: ConfigView,
    os_vars: Seq<(String, String)>,
    common_file: Option<Seq<Seq<char>>>,
    kind_lines: Seq<Seq<char>>,
    key: Seq<char>,
    m: Map<Seq<char>, Seq<char>>,
)
    requires
        load_map(cfg, os_vars, common_file, Some(kind_lines)) == Ok::<
            Map<Seq<char>, Seq<char>>,
            Error,
        >(m),
        file_binds(kind_lines, cfg.comments, cfg.comment_char, key),
    ensures
        m.contains_key(key),
        m[key] == file_bound_value(kind_lines, cfg.comments, cfg.comment_char, key),
{
    let seed = if cfg.os {
        pairs_map(os_vars, Map::empty())
    } else {
        Map::<Seq<char>, Seq<char>>::empty()
    };
    let after_common = if cfg.common {
        file_step(common_file, cfg.comments, cfg.comment_char, seed)
    } else {
        Ok(seed)
    };
    match after_common {
        Ok(m1) => {
            assert(lines_ok(kind_lines, cfg.comments, cfg.comment_char));
            assert(m == props_after(kind_lines, cfg.comments, cfg.comment_char, m1));
            lemma_bound_key_value(kind_lines, cfg.comments, cfg.comment_char, key, m1);
        },
        Err(_) => {},
    }
}

/// Law: a key the common file binds and the kind-specific file does not
/// ends with the common file's value, whatever the OS seed bound it to:
/// precedence is OS environment, then common file, then kind file.
pub proof fn lemma_common_file_value_kept(
    cfg: ConfigView,
    os_vars: Seq<(String, String)>,
    common_lines: Seq<Seq<char>>,
    kind_lines: Seq<Seq<char>>,
    key: Seq<char>,
    m: Map<Seq<char>, Seq<char>>,
)
    requires
        cfg.common,
        load_map(cfg, os_vars, Some(common_lines), Some(kind_lines)) == Ok::<
            Map<Seq<char>, Seq<char>>,
            Error,
        >(m),
        file_binds(common_lines, cfg.comments, cfg.comment_char, key),
        !file_binds(kind_lines, cfg.comments, cfg.comment_char, key),
    ensures
        m.contains_key(key),
        m[key] == file_bound_value(common_lines, cfg.comments, cfg.comment_char, key),
{
    let seed = if cfg.os {
        pairs_map(os_vars, Map::empty())
    } else {
        Map::<Seq<char>, Seq<char>>::empty()
    };
    assert(lines_ok(common_lines, cfg.comments, cfg.comment_char));
    let m1 = props_after(common_lines, cfg.comments, cfg.comment_char, seed);
    lemma_bound_key_value(common_lines, cfg.comments, cfg.comment_char, key, seed);
    assert(lines_ok(kind_lines, cfg.comments, cfg.comment_char));
    assert(m == props_after(kind_lines, cfg.comments, cfg.comment_char, m1));
    lemma_unbound_key_untouched(kind_lines, cfg.comments, cfg.comment_char, key, m1);
}

/// Law: loading is deterministic — the outcome is a function of the
/// configuration and the sources alone, so two loads of the same request
/// over unchanged sources agree on the kind and on every property.
pub proof fn lemma_load_deterministic(
    cfg: ConfigView,
    os_vars: Seq<(String, String)>,
    common_file: Option<Seq<Seq<char>>>,
    kind_file: Option<Seq<Seq<char>>>,
    r1: Result<Map<Seq<char>, Seq<char>>, Error>,
    r2: Result<Map<Seq<char>, Seq<char>>, Error>,
)
    requires
        r1 == load_map(cfg, os_vars, common_file, kind_file),
        r2 == load_map(cfg, os_vars, common_file, kind_file),
    ensures
        r1 == r2,
{
}

} // verus!
