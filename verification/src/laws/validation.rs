//! What holds of validating a configuration.
use vstd::prelude::*;

use crate::config::{ConfigView, ContainConfig};
use crate::error::{ContainError, ContainResult};
use crate::laws::ordering::{ascends, names, same_texts};
use crate::laws::ordering::{lemma_ascends, lemma_in_scheme, lemma_names};
use crate::lists::{ordered_set_is_unique, selects};
use crate::runner::{entry_names, fails_first_at, in_sandbox, is_sandboxed, is_validated};
use crate::runner::{list_schemes, root_outside_sandbox, run_contained, validate_config};
use crate::runner::SchemeEntry;
use crate::text::{in_scheme, in_some_scheme, texts};

verus! {

/// Two lists have the same members, in whatever order and however often.
pub open spec fn same_members(a: Seq<Seq<char>>, b: Seq<Seq<char>>) -> bool {
    forall|t: Seq<char>| #[trigger] a.contains(t) <==> b.contains(t)
}

/// Two configurations name the same schemes and paths, in whatever order and however often.
pub open spec fn same_config(a: ConfigView, b: ConfigView) -> bool {
    &&& same_members(a.pass_schemes, b.pass_schemes)
    &&& same_members(a.sandbox_schemes, b.sandbox_schemes)
    &&& same_members(a.files, b.files)
    &&& same_members(a.dirs, b.dirs)
    &&& same_members(a.rofiles, b.rofiles)
    &&& same_members(a.rodirs, b.rodirs)
    &&& a.root == b.root
}

/// Two selections from lists with the same members are one list, if they pick alike.
proof fn lemma_same_selection(
    a: Seq<Seq<char>>,
    b: Seq<Seq<char>>,
    keep_a: spec_fn(Seq<char>) -> bool,
    keep_b: spec_fn(Seq<char>) -> bool,
    out_a: Seq<Seq<char>>,
    out_b: Seq<Seq<char>>,
)
    requires
        same_members(a, b),
        forall|t: Seq<char>| #[trigger] a.contains(t) ==> keep_a(t) == keep_b(t),
        selects(a, keep_a, out_a),
        selects(b, keep_b, out_b),
    ensures
        out_a == out_b,
{
    assert forall|t: Seq<char>| #[trigger] out_a.contains(t) <==> out_b.contains(t) by {
        assert(a.contains(t) <==> b.contains(t));
    }
    ordered_set_is_unique(out_a, out_b);
}

/// Configurations with the same sandboxed schemes have the same sandbox.
proof fn lemma_same_sandbox(
    a: ConfigView,
    b: ConfigView,
    schemes_a: Seq<Seq<char>>,
    schemes_b: Seq<Seq<char>>,
    path: Seq<char>,
)
    requires
        forall|t: Seq<char>| #[trigger]
            is_sandboxed(a, schemes_a, t) <==> is_sandboxed(b, schemes_b, t),
    ensures
        in_sandbox(a, schemes_a, path) == in_sandbox(b, schemes_b, path),
{
    if in_sandbox(a, schemes_a, path) {
        let t = choose|t: Seq<char>| #[trigger]
            is_sandboxed(a, schemes_a, t) && in_scheme(path, t);
        assert(is_sandboxed(b, schemes_b, t));
    }
    if in_sandbox(b, schemes_b, path) {
        let t = choose|t: Seq<char>| #[trigger]
            is_sandboxed(b, schemes_b, t) && in_scheme(path, t);
        assert(is_sandboxed(a, schemes_a, t));
    }
}

/// Order and repetition make no difference to validating a configuration, neither those of
/// its own lists nor those of the system's schemes.
pub proof fn validation_ignores_order(
    a: ConfigView,
    b: ConfigView,
    schemes_a: Seq<Seq<char>>,
    schemes_b: Seq<Seq<char>>,
    out_a: ConfigView,
    out_b: ConfigView,
)
    requires
        same_config(a, b),
        same_members(schemes_a, schemes_b),
    ensures
        root_outside_sandbox(a, schemes_a) == root_outside_sandbox(b, schemes_b),
        is_validated(a, schemes_a, out_a) && is_validated(b, schemes_b, out_b) ==> out_a == out_b,
{
    assert forall|t: Seq<char>| #[trigger]
        is_sandboxed(a, schemes_a, t) <==> is_sandboxed(b, schemes_b, t) by {
        assert(a.sandbox_schemes.contains(t) <==> b.sandbox_schemes.contains(t));
        assert(schemes_a.contains(t) <==> schemes_b.contains(t));
    }
    let known_a = |t: Seq<char>| schemes_a.contains(t);
    let known_b = |t: Seq<char>| schemes_b.contains(t);
    let inside_a = |t: Seq<char>| in_sandbox(a, schemes_a, t);
    let inside_b = |t: Seq<char>| in_sandbox(b, schemes_b, t);
    assert forall|t: Seq<char>| #[trigger] known_a(t) == known_b(t) by {
        assert(schemes_a.contains(t) <==> schemes_b.contains(t));
    }
    assert forall|t: Seq<char>| #[trigger] inside_a(t) == inside_b(t) by {
        lemma_same_sandbox(a, b, schemes_a, schemes_b, t);
    }
    if a.root is Some {
        assert(inside_a(a.root->0) == inside_b(a.root->0));
    }
    if is_validated(a, schemes_a, out_a) && is_validated(b, schemes_b, out_b) {
        lemma_same_selection(
            a.pass_schemes,
            b.pass_schemes,
            known_a,
            known_b,
            out_a.pass_schemes,
            out_b.pass_schemes,
        );
        lemma_same_selection(
            a.sandbox_schemes,
            b.sandbox_schemes,
            known_a,
            known_b,
            out_a.sandbox_schemes,
            out_b.sandbox_schemes,
        );
        lemma_same_selection(a.files, b.files, inside_a, inside_b, out_a.files, out_b.files);
        lemma_same_selection(a.dirs, b.dirs, inside_a, inside_b, out_a.dirs, out_b.dirs);
        lemma_same_selection(
            a.rofiles,
            b.rofiles,
            inside_a,
            inside_b,
            out_a.rofiles,
            out_b.rofiles,
        );
        lemma_same_selection(a.rodirs, b.rodirs, inside_a, inside_b, out_a.rodirs, out_b.rodirs);
        assert(out_a =~= out_b);
    }
}

/// What has been validated is valid: validating it again, on the same system, succeeds and
/// changes nothing.
pub proof fn validation_is_idempotent(
    config: ConfigView,
    schemes: Seq<Seq<char>>,
    once: ConfigView,
    twice: ConfigView,
)
    requires
        !root_outside_sandbox(config, schemes),
        is_validated(config, schemes, once),
    ensures
        !root_outside_sandbox(once, schemes),
        is_validated(once, schemes, twice) ==> twice == once,
        is_validated(once, schemes, once),
{
    assert forall|t: Seq<char>| #[trigger]
        is_sandboxed(config, schemes, t) <==> is_sandboxed(once, schemes, t) by {
        assert(once.sandbox_schemes.contains(t) <==> is_sandboxed(config, schemes, t));
    }
    let known = |t: Seq<char>| schemes.contains(t);
    let inside = |t: Seq<char>| in_sandbox(config, schemes, t);
    let inside_once = |t: Seq<char>| in_sandbox(once, schemes, t);
    assert forall|t: Seq<char>| #[trigger] inside(t) == inside_once(t) by {
        lemma_same_sandbox(config, once, schemes, schemes, t);
    }
    if once.root is Some {
        assert(inside(once.root->0) == inside_once(once.root->0));
    }
    assert(selects(once.files, inside_once, once.files)) by {
        assert forall|t: Seq<char>| #[trigger] once.files.contains(t) implies inside_once(t) by {
            assert(inside(t) == inside_once(t));
        }
    }
    assert(selects(once.dirs, inside_once, once.dirs)) by {
        assert forall|t: Seq<char>| #[trigger] once.dirs.contains(t) implies inside_once(t) by {
            assert(inside(t) == inside_once(t));
        }
    }
    assert(selects(once.rofiles, inside_once, once.rofiles)) by {
        assert forall|t: Seq<char>| #[trigger] once.rofiles.contains(t) implies inside_once(t) by {
            assert(inside(t) == inside_once(t));
        }
    }
    assert(selects(once.rodirs, inside_once, once.rodirs)) by {
        assert forall|t: Seq<char>| #[trigger] once.rodirs.contains(t) implies inside_once(t) by {
            assert(inside(t) == inside_once(t));
        }
    }
    if is_validated(once, schemes, twice) {
        validation_ignores_order(once, once, schemes, schemes, once, twice);
    }
}

/// Validation adds nothing: whatever it leaves was there before.
pub proof fn validation_only_removes(
    config: ConfigView,
    schemes: Seq<Seq<char>>,
    output: ConfigView,
    t: Seq<char>,
)
    requires
        is_validated(config, schemes, output),
    ensures
        output.pass_schemes.contains(t) ==> config.pass_schemes.contains(t),
        output.sandbox_schemes.contains(t) ==> config.sandbox_schemes.contains(t),
        output.files.contains(t) ==> config.files.contains(t),
        output.dirs.contains(t) ==> config.dirs.contains(t),
        output.rofiles.contains(t) ==> config.rofiles.contains(t),
        output.rodirs.contains(t) ==> config.rodirs.contains(t),
        output.root == config.root,
{
}

/// A validated configuration names only schemes that the system has, and every path in it,
/// its root directory included, lies in one of its own sandboxed schemes.
pub proof fn validated_paths_are_sandboxed(
    config: ConfigView,
    schemes: Seq<Seq<char>>,
    output: ConfigView,
    t: Seq<char>,
)
    requires
        !root_outside_sandbox(config, schemes),
        is_validated(config, schemes, output),
    ensures
        output.pass_schemes.contains(t) || output.sandbox_schemes.contains(t) ==> schemes.contains(
            t,
        ),
        output.files.contains(t) || output.dirs.contains(t) || output.rofiles.contains(t)
            || output.rodirs.contains(t) || output.root == Some(t) ==> in_some_scheme(
            t,
            output.sandbox_schemes,
        ),
{
    if in_sandbox(config, schemes, t) {
        let scheme = choose|scheme: Seq<char>| #[trigger]
            is_sandboxed(config, schemes, scheme) && in_scheme(t, scheme);
        assert(output.sandbox_schemes.contains(scheme));
        let i = choose|i: int|
            0 <= i < output.sandbox_schemes.len() && output.sandbox_schemes[i] == scheme;
        assert(in_scheme(t, output.sandbox_schemes[i]));
    }
}

/// A system with more schemes keeps whatever one with fewer keeps: every scheme and path, and
/// the root directory.
pub proof fn validation_is_monotone(
    config: ConfigView,
    fewer: Seq<Seq<char>>,
    more: Seq<Seq<char>>,
    out_fewer: ConfigView,
    out_more: ConfigView,
    t: Seq<char>,
)
    requires
        forall|s: Seq<char>| #[trigger] fewer.contains(s) ==> more.contains(s),
    ensures
        !root_outside_sandbox(config, fewer) ==> !root_outside_sandbox(config, more),
        is_validated(config, fewer, out_fewer) && is_validated(config, more, out_more) ==> {
            &&& out_fewer.pass_schemes.contains(t) ==> out_more.pass_schemes.contains(t)
            &&& out_fewer.sandbox_schemes.contains(t) ==> out_more.sandbox_schemes.contains(t)
            &&& out_fewer.files.contains(t) ==> out_more.files.contains(t)
            &&& out_fewer.dirs.contains(t) ==> out_more.dirs.contains(t)
            &&& out_fewer.rofiles.contains(t) ==> out_more.rofiles.contains(t)
            &&& out_fewer.rodirs.contains(t) ==> out_more.rodirs.contains(t)
            &&& out_fewer.root == out_more.root
        },
{
    lemma_larger_sandbox(config, fewer, more, t);
    if config.root is Some {
        lemma_larger_sandbox(config, fewer, more, config.root->0);
    }
}

/// A system with more schemes has a larger sandbox.
proof fn lemma_larger_sandbox(
    config: ConfigView,
    fewer: Seq<Seq<char>>,
    more: Seq<Seq<char>>,
    path: Seq<char>,
)
    requires
        forall|s: Seq<char>| #[trigger] fewer.contains(s) ==> more.contains(s),
    ensures
        in_sandbox(config, fewer, path) ==> in_sandbox(config, more, path),
{
    if in_sandbox(config, fewer, path) {
        let scheme = choose|scheme: Seq<char>| #[trigger]
            is_sandboxed(config, fewer, scheme) && in_scheme(path, scheme);
        assert(is_sandboxed(config, more, scheme));
    }
}

/// The passed schemes make no difference to anything else: two configurations that differ in
/// them alone are both valid or both not, and differ in them alone once validated.
pub proof fn passed_schemes_stand_alone(
    a: ConfigView,
    b: ConfigView,
    schemes: Seq<Seq<char>>,
    out_a: ConfigView,
    out_b: ConfigView,
)
    requires
        b == (ConfigView { pass_schemes: b.pass_schemes, ..a }),
    ensures
        root_outside_sandbox(a, schemes) == root_outside_sandbox(b, schemes),
        is_validated(a, schemes, out_a) && is_validated(b, schemes, out_b) ==> out_b == (ConfigView {
            pass_schemes: out_b.pass_schemes,
            ..out_a
        }),
{
    assert forall|t: Seq<char>| #[trigger]
        is_sandboxed(a, schemes, t) <==> is_sandboxed(b, schemes, t) by {}
    if a.root is Some {
        lemma_same_sandbox(a, b, schemes, schemes, a.root->0);
    }
    if is_validated(a, schemes, out_a) && is_validated(b, schemes, out_b) {
        let known = |t: Seq<char>| schemes.contains(t);
        let inside_a = |t: Seq<char>| in_sandbox(a, schemes, t);
        let inside_b = |t: Seq<char>| in_sandbox(b, schemes, t);
        assert forall|t: Seq<char>| #[trigger] inside_a(t) == inside_b(t) by {
            lemma_same_sandbox(a, b, schemes, schemes, t);
        }
        lemma_same_selection(
            a.sandbox_schemes,
            b.sandbox_schemes,
            known,
            known,
            out_a.sandbox_schemes,
            out_b.sandbox_schemes,
        );
        lemma_same_selection(a.files, b.files, inside_a, inside_b, out_a.files, out_b.files);
        lemma_same_selection(a.dirs, b.dirs, inside_a, inside_b, out_a.dirs, out_b.dirs);
        lemma_same_selection(
            a.rofiles,
            b.rofiles,
            inside_a,
            inside_b,
            out_a.rofiles,
            out_b.rofiles,
        );
        lemma_same_selection(a.rodirs, b.rodirs, inside_a, inside_b, out_a.rodirs, out_b.rodirs);
    }
}

/// `t` is the name of a scheme that is to be sandboxed and that the system has, a colon, and
/// anything.
pub open spec fn lies_in_sandbox(
    config: ContainConfig,
    schemes: Seq<String>,
    t: Seq<char>,
) -> bool {
    exists|s: Seq<char>, rest: Seq<char>|
        names(config.sandbox_schemes@, s) && names(schemes, s) && t == #[trigger] (s + seq![':']
            + rest)
}

proof fn lemma_lies_in_sandbox(config: ContainConfig, schemes: Seq<String>, t: Seq<char>)
    ensures
        in_sandbox(config@, texts(schemes), t) <==> lies_in_sandbox(config, schemes, t),
{
    if in_sandbox(config@, texts(schemes), t) {
        let s = choose|s: Seq<char>| #[trigger]
            is_sandboxed(config@, texts(schemes), s) && in_scheme(t, s);
        lemma_names(config.sandbox_schemes@, s);
        lemma_names(schemes, s);
        lemma_in_scheme(t, s);
        let rest = choose|rest: Seq<char>| t == #[trigger] (s + seq![':'] + rest);
        assert(t == s + seq![':'] + rest);
    }
    if lies_in_sandbox(config, schemes, t) {
        let (s, rest) = choose|s: Seq<char>, rest: Seq<char>|
            names(config.sandbox_schemes@, s) && names(schemes, s) && t == #[trigger] (s + seq![
                ':',
            ] + rest);
        lemma_names(config.sandbox_schemes@, s);
        lemma_names(schemes, s);
        lemma_in_scheme(t, s);
        assert(is_sandboxed(config@, texts(schemes), s));
    }
}

/// A list that was selected from another holds what is picked of it, in ascending order.
proof fn lemma_selected(
    input: Seq<String>,
    keep: spec_fn(Seq<char>) -> bool,
    output: Seq<String>,
    t: Seq<char>,
)
    requires
        selects(texts(input), keep, texts(output)),
    ensures
        names(output, t) <==> names(input, t) && keep(t),
        ascends(output),
{
    lemma_names(input, t);
    lemma_names(output, t);
    assert(texts(output).contains(t) <==> (texts(input).contains(t) && keep(t)));
    lemma_ascends(output);
}

/// A path that is the name of a sandboxed and known scheme, a colon, and anything, is lost from
/// none of the lists.
pub proof fn no_sandboxed_path_is_lost<E>(
    config: ContainConfig,
    schemes: &Vec<String>,
    output: ContainConfig,
    s: Seq<char>,
    rest: Seq<char>,
)
    requires
        call_ensures(
            validate_config::<E>,
            (config, schemes),
            Ok::<ContainConfig, ContainError<E>>(output),
        ),
        names(config.sandbox_schemes@, s),
        names(schemes@, s),
    ensures
        ({
            let t = s + seq![':'] + rest;
            &&& names(config.files@, t) ==> names(output.files@, t)
            &&& names(config.dirs@, t) ==> names(output.dirs@, t)
            &&& names(config.rofiles@, t) ==> names(output.rofiles@, t)
            &&& names(config.rodirs@, t) ==> names(output.rodirs@, t)
        }),
{
    let t = s + seq![':'] + rest;
    assert(lies_in_sandbox(config, schemes@, t));
    validated_lists_hold_what_belongs::<E>(config, schemes, output, t);
}

/// Each list of a validated configuration holds just what belongs in it: of the schemes those
/// that the system has, of the paths those that lie in a sandboxed and known scheme.
pub proof fn validated_lists_hold_what_belongs<E>(
    config: ContainConfig,
    schemes: &Vec<String>,
    output: ContainConfig,
    t: Seq<char>,
)
    requires
        call_ensures(
            validate_config::<E>,
            (config, schemes),
            Ok::<ContainConfig, ContainError<E>>(output),
        ),
    ensures
        names(output.pass_schemes@, t) <==> names(config.pass_schemes@, t) && names(schemes@, t),
        names(output.sandbox_schemes@, t) <==> names(config.sandbox_schemes@, t) && names(
            schemes@,
            t,
        ),
        names(output.files@, t) <==> names(config.files@, t) && lies_in_sandbox(
            config,
            schemes@,
            t,
        ),
        names(output.dirs@, t) <==> names(config.dirs@, t) && lies_in_sandbox(config, schemes@, t),
        names(output.rofiles@, t) <==> names(config.rofiles@, t) && lies_in_sandbox(
            config,
            schemes@,
            t,
        ),
        names(output.rodirs@, t) <==> names(config.rodirs@, t) && lies_in_sandbox(
            config,
            schemes@,
            t,
        ),
{
    let known = |scheme: Seq<char>| texts(schemes@).contains(scheme);
    let inside = |path: Seq<char>| in_sandbox(config@, texts(schemes@), path);
    lemma_names(schemes@, t);
    lemma_lies_in_sandbox(config, schemes@, t);
    assert(known(t) <==> names(schemes@, t));
    assert(inside(t) <==> lies_in_sandbox(config, schemes@, t));
    lemma_selected(config.pass_schemes@, known, output.pass_schemes@, t);
    lemma_selected(config.sandbox_schemes@, known, output.sandbox_schemes@, t);
    lemma_selected(config.files@, inside, output.files@, t);
    lemma_selected(config.dirs@, inside, output.dirs@, t);
    lemma_selected(config.rofiles@, inside, output.rofiles@, t);
    lemma_selected(config.rodirs@, inside, output.rodirs@, t);
}

/// Each list of a validated configuration is in ascending order, byte by byte, and so holds
/// nothing twice.
pub proof fn validated_lists_ascend<E>(
    config: ContainConfig,
    schemes: &Vec<String>,
    output: ContainConfig,
)
    requires
        call_ensures(
            validate_config::<E>,
            (config, schemes),
            Ok::<ContainConfig, ContainError<E>>(output),
        ),
    ensures
        ascends(output.pass_schemes@),
        ascends(output.sandbox_schemes@),
        ascends(output.files@),
        ascends(output.dirs@),
        ascends(output.rofiles@),
        ascends(output.rodirs@),
{
    lemma_ascends(output.pass_schemes@);
    lemma_ascends(output.sandbox_schemes@);
    lemma_ascends(output.files@);
    lemma_ascends(output.dirs@);
    lemma_ascends(output.rofiles@);
    lemma_ascends(output.rodirs@);
}

/// A configuration is refused just where it has a root directory that lies in no sandboxed and
/// known scheme. One that is not refused keeps its root directory, or its having none.
pub proof fn only_a_root_outside_the_sandbox_is_refused<E>(
    config: ContainConfig,
    schemes: &Vec<String>,
    r: ContainResult<ContainConfig, E>,
)
    requires
        call_ensures(validate_config::<E>, (config, schemes), r),
    ensures
        match config.root {
            None => r is Ok && r->Ok_0.root is None,
            Some(root) => if lies_in_sandbox(config, schemes@, root@) {
                r is Ok && r->Ok_0.root is Some && r->Ok_0.root->0@ == root@
            } else {
                r matches Err(e) && e is ConfigError
            },
        },
{
    if config.root is Some {
        lemma_lies_in_sandbox(config, schemes@, config.root->0@);
    }
    if r is Ok {
        assert(r->Ok_0@.root == config@.root);
    }
}

/// A root directory that is the name of a sandboxed and known scheme, a colon, and anything, is
/// accepted.
pub proof fn a_root_in_the_sandbox_is_accepted<E>(
    config: ContainConfig,
    schemes: &Vec<String>,
    r: ContainResult<ContainConfig, E>,
    s: Seq<char>,
    rest: Seq<char>,
)
    requires
        call_ensures(validate_config::<E>, (config, schemes), r),
        config.root is Some,
        config.root->0@ == s + seq![':'] + rest,
        names(config.sandbox_schemes@, s),
        names(schemes@, s),
    ensures
        r is Ok,
        r->Ok_0.root is Some,
        r->Ok_0.root->0@ == s + seq![':'] + rest,
{
    assert(lies_in_sandbox(config, schemes@, s + seq![':'] + rest));
    only_a_root_outside_the_sandbox_is_refused::<E>(config, schemes, r);
}

/// `entries` without those that are not names.
pub open spec fn readable<E>(entries: Seq<SchemeEntry<E>>) -> Seq<SchemeEntry<E>> {
    entries.filter(|entry: SchemeEntry<E>| entry is Name)
}

proof fn lemma_readable<E>(entries: Seq<SchemeEntry<E>>)
    ensures
        entry_names(entries).len() == readable(entries).len(),
        forall|j: int|
            0 <= j < readable(entries).len() ==> (#[trigger] readable(entries)[j] matches
                SchemeEntry::Name(name) && name@ == entry_names(entries)[j]),
    decreases entries.len(),
{
    reveal(Seq::filter);
    if entries.len() > 0 {
        lemma_readable(entries.drop_last());
        let before = readable(entries.drop_last());
        assert(readable(entries) == if entries.last() is Name {
            before.push(entries.last())
        } else {
            before
        });
        assert forall|j: int| 0 <= j < readable(entries).len() implies (
        #[trigger] readable(entries)[j] matches SchemeEntry::Name(name) && name@ == entry_names(
            entries,
        )[j]) by {
            if j < before.len() {
                assert(readable(entries)[j] == before[j]);
            }
        }
    }
}

/// Where no step failed, every name is listed, in the order of the walk, and nothing else.
pub proof fn every_readable_name_is_listed<E>(
    entries: Result<Vec<SchemeEntry<E>>, E>,
    r: ContainResult<Vec<String>, E>,
)
    requires
        call_ensures(list_schemes::<E>, (entries,), r),
        entries is Ok,
        forall|i: int| 0 <= i < entries->Ok_0@.len() ==> !(#[trigger] entries->Ok_0@[i] is Failed),
    ensures
        r is Ok,
        r->Ok_0@.len() == readable(entries->Ok_0@).len(),
        forall|j: int|
            0 <= j < r->Ok_0@.len() ==> readable(entries->Ok_0@)[j] is Name && (
            #[trigger] r->Ok_0@[j])@ == readable(entries->Ok_0@)[j]->Name_0@,
        forall|i: int|
            0 <= i < entries->Ok_0@.len() && #[trigger] entries->Ok_0@[i] is Name ==> names(
                r->Ok_0@,
                entries->Ok_0@[i]->Name_0@,
            ),
{
    let steps = entries->Ok_0@;
    let keep = |entry: SchemeEntry<E>| entry is Name;
    lemma_readable(steps);
    if r is Err {
        let (i, error) = choose|i: int, error: E| #[trigger] fails_first_at(steps, i, error);
        assert(steps[i] is Failed);
    }
    let listed = r->Ok_0@;
    assert(texts(listed).len() == listed.len());
    assert forall|j: int| 0 <= j < listed.len() implies readable(steps)[j] is Name && (
    #[trigger] listed[j])@ == readable(steps)[j]->Name_0@ by {
        assert(texts(listed)[j] == listed[j]@);
    }
    assert forall|i: int| 0 <= i < steps.len() && #[trigger] steps[i] is Name implies names(
        listed,
        steps[i]->Name_0@,
    ) by {
        assert(keep(steps[i]));
        steps.lemma_filter_contains(keep, i);
        assert(steps.filter(keep).contains(steps[i]));
        let j = choose|j: int| 0 <= j < readable(steps).len() && readable(steps)[j] == steps[i];
        assert(listed[j]@ == steps[i]->Name_0@);
    }
}

/// Where the walk cannot begin its error is given, and otherwise that of the first step that
/// failed.
pub proof fn the_first_failure_is_given<E>(
    entries: Result<Vec<SchemeEntry<E>>, E>,
    r: ContainResult<Vec<String>, E>,
    i: int,
)
    requires
        call_ensures(list_schemes::<E>, (entries,), r),
    ensures
        entries matches Err(error) ==> r == Err::<Vec<String>, ContainError<E>>(
            ContainError::IoError(error),
        ),
        entries is Ok && 0 <= i < entries->Ok_0@.len() && entries->Ok_0@[i] is Failed && (forall|
            j: int,
        |
            0 <= j < i ==> !(#[trigger] entries->Ok_0@[j] is Failed)) ==> r == Err::<
            Vec<String>,
            ContainError<E>,
        >(ContainError::IoError(entries->Ok_0@[i]->Failed_0)),
{
}

/// Running a command contained starts from what validating its configuration gives, with the
/// schemes that are listed; an error of either is its error.
pub proof fn a_contained_run_lists_and_validates<E>(
    config: ContainConfig,
    entries: Result<Vec<SchemeEntry<E>>, E>,
    listed: ContainResult<Vec<String>, E>,
    validated: ContainResult<ContainConfig, E>,
    r: ContainResult<ContainConfig, E>,
)
    requires
        call_ensures(list_schemes::<E>, (entries,), listed),
        listed matches Ok(schemes) ==> call_ensures(
            validate_config::<E>,
            (config, &schemes),
            validated,
        ),
        call_ensures(run_contained::<E>, (config, entries), r),
    ensures
        match listed {
            Err(e) => r == Err::<ContainConfig, ContainError<E>>(e),
            Ok(_) => match validated {
                Err(e) => r == Err::<ContainConfig, ContainError<E>>(e),
                Ok(output) => r matches Ok(run) && run@ == output@,
            },
        },
{
    if entries is Ok {
        let steps = entries->Ok_0@;
        if listed is Err {
            let (i, error) = choose|i: int, error: E| #[trigger]
                fails_first_at(steps, i, error) && listed->Err_0 == ContainError::IoError(error);
            assert(steps[i] is Failed);
            if r is Err {
                let (j, other) = choose|j: int, other: E| #[trigger]
                    fails_first_at(steps, j, other) && r->Err_0 == ContainError::IoError(other);
                assert(i == j);
            }
        } else {
            assert(texts(listed->Ok_0@) == entry_names(steps));
            if r is Err {
                assert forall|i: int, error: E| !#[trigger] fails_first_at(steps, i, error) by {}
            }
            if r is Ok && validated is Ok {
                validation_ignores_order(
                    config@,
                    config@,
                    entry_names(steps),
                    entry_names(steps),
                    r->Ok_0@,
                    validated->Ok_0@,
                );
            }
        }
    }
}

/// What the view of a configuration holds is what its lists hold, item by item.
pub proof fn a_configuration_is_seen_as_it_is(config: ContainConfig)
    ensures
        same_texts(config@.pass_schemes, config.pass_schemes@),
        same_texts(config@.sandbox_schemes, config.sandbox_schemes@),
        same_texts(config@.files, config.files@),
        same_texts(config@.dirs, config.dirs@),
        same_texts(config@.rofiles, config.rofiles@),
        same_texts(config@.rodirs, config.rodirs@),
        match config.root {
            None => config@.root is None,
            Some(root) => config@.root == Some(root@),
        },
{
}

} // verus!
