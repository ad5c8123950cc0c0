//! Process launcher decisions.
//!
//! Spawning the backend process is plain I/O and lives in the shell around
//! the library; everything the spawn is built from is decided here: the
//! exact argument vector for a fresh or a resumed session, the candidate
//! locations tried when the backend is only reachable through a language
//! runtime and an entry script, which candidate to take, and the message
//! reported when every candidate fails.

use vstd::prelude::*;

verus! {

/// The arguments of a fresh session: print mode, verbose structured
/// output, a permission mode that bypasses interactive prompts, then the
/// message.
pub open spec fn chat_args_spec(msg: Seq<char>) -> Seq<Seq<char>> {
    seq![
        "--print"@,
        "--verbose"@,
        "--output-format"@,
        "stream-json"@,
        "--permission-mode"@,
        "bypassPermissions"@,
        msg,
    ]
}

/// The arguments of a resumed session: the resume flag and the session id
/// precede the fresh-session arguments.
pub open spec fn resume_args_spec(session_id: Seq<char>, msg: Seq<char>) -> Seq<Seq<char>> {
    seq!["--resume"@, session_id] + chat_args_spec(msg)
}

/// The views of a string vector.
pub open spec fn views_of(v: Seq<String>) -> Seq<Seq<char>> {
    v.map_values(|s: String| s@)
}

/// The views of one more string.
pub proof fn lemma_views_push(s: Seq<String>, x: String)
    ensures
        views_of(s.push(x)) == views_of(s).push(x@),
{
    assert(views_of(s.push(x)) =~= views_of(s).push(x@));
}

/// The argument vector of a fresh session.
pub fn chat_args(message: &str) -> (r: Vec<String>)
    ensures
        views_of(r@) == chat_args_spec(message@),
{
    let mut v: Vec<String> = Vec::new();
    v.push("--print".to_owned());
    v.push("--verbose".to_owned());
    v.push("--output-format".to_owned());
    v.push("stream-json".to_owned());
    v.push("--permission-mode".to_owned());
    v.push("bypassPermissions".to_owned());
    v.push(message.to_owned());
    proof {
        assert(views_of(v@) =~= chat_args_spec(message@));
    }
    v
}

/// The argument vector of a resumed session.
pub fn resume_args(session_id: &str, message: &str) -> (r: Vec<String>)
    ensures
        views_of(r@) == resume_args_spec(session_id@, message@),
{
    let mut v: Vec<String> = Vec::new();
    v.push("--resume".to_owned());
    v.push(session_id.to_owned());
    v.push("--print".to_owned());
    v.push("--verbose".to_owned());
    v.push("--output-format".to_owned());
    v.push("stream-json".to_owned());
    v.push("--permission-mode".to_owned());
    v.push("bypassPermissions".to_owned());
    v.push(message.to_owned());
    proof {
        assert(views_of(v@) =~= resume_args_spec(session_id@, message@));
    }
    v
}

/// A path below a directory, joined with the platform separator.
pub fn join_path(dir: &str, sep: char, rest: &str) -> (r: String)
    ensures
        r@ == dir@ + seq![sep] + rest@,
{
    let mut cs = crate::json::str_to_chars(dir);
    cs.push(sep);
    let mut rest_cs = crate::json::str_to_chars(rest);
    cs.append(&mut rest_cs);
    proof {
        assert(cs@ =~= dir@ + seq![sep] + rest@);
    }
    crate::json::string_from_chars(&cs)
}

/// The view of the system-wide lookup's result, as a candidate list.
pub open spec fn lookup_candidate(o: Option<String>) -> Seq<Seq<char>> {
    match o {
        Some(s) => seq![s@],
        None => Seq::<Seq<char>>::empty(),
    }
}

/// The locations tried for the language runtime, in the order the
/// resolution rule fixes: one co-located with the wrapper command's
/// directory, then the system-wide lookup's result if that lookup found
/// one, then the well-known install locations.
#[verifier::loop_isolation(false)]
pub fn runtime_candidates(
    wrapper_dir: &str,
    runtime_file: &str,
    system_lookup: Option<String>,
    well_known: &Vec<String>,
) -> (r: Vec<String>)
    ensures
        views_of(r@) == seq![wrapper_dir@ + seq!['\\'] + runtime_file@] + lookup_candidate(
            system_lookup) + views_of(well_known@),
{
    let ghost head = seq![wrapper_dir@ + seq!['\\'] + runtime_file@] + lookup_candidate(
        system_lookup);
    let mut v: Vec<String> = Vec::new();
    v.push(join_path(wrapper_dir, '\\', runtime_file));
    match &system_lookup {
        Some(found) => {
            v.push(found.clone());
        }
        None => {}
    }
    proof {
        assert(views_of(v@) =~= head);
        assert(views_of(well_known@.take(0)) =~= Seq::<Seq<char>>::empty());
        assert(views_of(v@) =~= head + views_of(well_known@.take(0)));
    }
    let mut i: usize = 0;
    while i < well_known.len()
        invariant
            i <= well_known@.len(),
            views_of(v@) == head + views_of(well_known@.take(i as int)),
        decreases well_known@.len() - i,
    {
        let ghost pre = v@;
        v.push(well_known[i].clone());
        proof {
            lemma_views_push(pre, v@.last());
            assert(well_known@.take(i + 1 as int) =~= well_known@.take(i as int).push(
                well_known@[i as int]));
            lemma_views_push(well_known@.take(i as int), well_known@[i as int]);
            assert(views_of(v@) =~= head + views_of(well_known@.take(i + 1 as int)));
        }
        i = i + 1;
    }
    proof {
        assert(well_known@.take(well_known@.len() as int) =~= well_known@);
    }
    v
}

/// The locations tried for the entry script, in order: the script's
/// package-relative path below the wrapper command's directory, then the
/// same path below the roaming package directory when the shell could
/// resolve one.  Which relative path the backend's package layout uses is
/// the shell's configuration.
pub fn cli_script_candidates(npm_dir: &str, entry_rel: &str, roaming_npm_dir: Option<&str>) -> (r:
    Vec<String>)
    ensures
        views_of(r@) == seq![npm_dir@ + seq!['\\'] + entry_rel@] + (match roaming_npm_dir {
            Some(d) => seq![d@ + seq!['\\'] + "npm"@ + seq!['\\'] + entry_rel@],
            None => Seq::<Seq<char>>::empty(),
        }),
{
    let mut v: Vec<String> = Vec::new();
    v.push(join_path(npm_dir, '\\', entry_rel));
    match roaming_npm_dir {
        Some(d) => {
            let base = join_path(d, '\\', "npm");
            let global = join_path(base.as_str(), '\\', entry_rel);
            proof {
                assert(global@ =~= d@ + seq!['\\'] + "npm"@ + seq!['\\'] + entry_rel@);
            }
            v.push(global);
            proof {
                assert(views_of(v@) =~= seq![npm_dir@ + seq!['\\'] + entry_rel@] + seq![
                    d@ + seq!['\\'] + "npm"@ + seq!['\\'] + entry_rel@,
                ]);
            }
        }
        None => {
            proof {
                assert(views_of(v@) =~= seq![npm_dir@ + seq!['\\'] + entry_rel@] + Seq::<
                    Seq<char>,
                >::empty());
            }
        }
    }
    v
}

/// An argument vector led by the entry-script path: when the backend is
/// launched as runtime plus script, the script precedes every flag.
#[verifier::loop_isolation(false)]
pub fn script_args(script: &str, rest: &Vec<String>) -> (r: Vec<String>)
    ensures
        views_of(r@) == seq![script@] + views_of(rest@),
{
    let mut v: Vec<String> = Vec::new();
    v.push(script.to_owned());
    proof {
        assert(views_of(rest@.take(0)) =~= Seq::<Seq<char>>::empty());
        assert(views_of(v@) =~= seq![script@] + views_of(rest@.take(0)));
    }
    let mut i: usize = 0;
    while i < rest.len()
        invariant
            i <= rest@.len(),
            views_of(v@) == seq![script@] + views_of(rest@.take(i as int)),
        decreases rest@.len() - i,
    {
        let ghost pre = v@;
        v.push(rest[i].clone());
        proof {
            lemma_views_push(pre, v@.last());
            assert(rest@.take(i + 1 as int) =~= rest@.take(i as int).push(rest@[i as int]));
            lemma_views_push(rest@.take(i as int), rest@[i as int]);
            assert(views_of(v@) =~= seq![script@] + views_of(rest@.take(i + 1 as int)));
        }
        i = i + 1;
    }
    proof {
        assert(rest@.take(rest@.len() as int) =~= rest@);
    }
    v
}

/// The first candidate that exists, by the existence bits the shell
/// probed: the resolution rule for runtimes and entry scripts.
pub fn pick_first_existing(candidates: &Vec<String>, exists: &Vec<bool>) -> (r: Option<usize>)
    requires
        candidates@.len() == exists@.len(),
    ensures
        (match r {
            Some(i) => i < candidates@.len() && exists@[i as int] && (forall|j: int|
                0 <= j < i ==> !exists@[j]),
            None => forall|j: int| 0 <= j < exists@.len() ==> !exists@[j],
        }),
{
    let mut i: usize = 0;
    while i < candidates.len()
        invariant
            i <= exists@.len(),
            candidates@.len() == exists@.len(),
            forall|j: int| 0 <= j < i ==> !exists@[j],
        decreases candidates@.len() - i,
    {
        if exists[i] {
            return Some(i);
        }
        i = i + 1;
    }
    None
}

/// The attempted locations, joined for a resolution error message.
pub open spec fn joined_with(s: Seq<Seq<char>>, sep: Seq<char>) -> Seq<char>
    decreases s.len(),
{
    if s.len() == 0 {
        Seq::empty()
    } else if s.len() == 1 {
        s[0]
    } else {
        joined_with(s.drop_last(), sep) + sep + s.last()
    }
}

/// The message of a fatal resolution error, naming every location tried.
#[verifier::loop_isolation(false)]
pub fn resolution_failure_message(attempted: &Vec<String>) -> (r: String)
    ensures
        r@ == "not found; tried: "@ + joined_with(views_of(attempted@), ", "@),
{
    let mut cs = crate::json::str_to_chars("not found; tried: ");
    let ghost base = cs@;
    let mut i: usize = 0;
    while i < attempted.len()
        invariant
            i <= attempted@.len(),
            cs@ == base + joined_with(views_of(attempted@.take(i as int)), ", "@),
        decreases attempted@.len() - i,
    {
        if i > 0 {
            cs.push(',');
            cs.push(' ');
        }
        let mut a = crate::json::str_to_chars(attempted[i].as_str());
        cs.append(&mut a);
        proof {
            reveal_strlit(", ");
            let vw = views_of(attempted@.take(i + 1 as int));
            assert(vw.drop_last() =~= views_of(attempted@.take(i as int)));
            assert(vw.last() == attempted@[i as int]@);
            if i == 0 {
                assert(vw =~= seq![attempted@[0]@]);
                assert(joined_with(vw, ", "@) == attempted@[0]@);
                assert(cs@ =~= base + joined_with(vw, ", "@));
            } else {
                assert(joined_with(vw, ", "@) == joined_with(vw.drop_last(), ", "@) + ", "@
                    + vw.last());
                assert(", "@ =~= seq![',', ' ']);
                assert(cs@ =~= base + joined_with(vw, ", "@));
            }
        }
        i = i + 1;
    }
    proof {
        assert(attempted@.take(attempted@.len() as int) =~= attempted@);
    }
    crate::json::string_from_chars(&cs)
}

} // verus!
