//! Properties of the changelog that hold for every history.
use vstd::prelude::*;

use crate::conf;
use crate::grammar::{is_text_char, parse, run_end};
use crate::parser::{
    accepted_label, changelog_of, index_of, is_merge, kind_label, preview_name, release_of,
    repository_at, repository_of, repository_result_view, resolve, starts_with, step, verdict,
    walk, CommitRecord, History, Marker, Repository, RepositoryError, TagView,
    Verdict, WalkState,
};

verus! {

proof fn lemma_unannotated_index_empty(ms: Seq<Marker>)
    requires
        forall|i: int| 0 <= i < ms.len() ==> (#[trigger] ms[i]).target is None,
    ensures
        index_of(ms) == Seq::<(Seq<char>, Seq<char>)>::empty(),
    decreases ms.len(),
{
    if ms.len() > 0 {
        let rest = ms.drop_last();
        assert forall|i: int| 0 <= i < rest.len() implies (#[trigger] rest[i]).target is None by {
            assert(rest[i] == ms[i]);
        }
        lemma_unannotated_index_empty(rest);
        assert(ms.last() == ms[ms.len() - 1]);
    }
}

proof fn lemma_walk_without_releases(
    kinds: Seq<(String, String)>,
    template: Option<Seq<char>>,
    rs: Seq<CommitRecord>,
)
    ensures
        walk(kinds, template, Seq::empty(), rs) is Ok ==> walk(
            kinds,
            template,
            Seq::empty(),
            rs,
        )->Ok_0.tags.len() == 0,
    decreases rs.len(),
{
    if rs.len() > 0 {
        lemma_walk_without_releases(kinds, template, rs.drop_last());
    }
}

/// A history without annotated markers gives at most one group, the open one
/// named "Technical preview", which holds every kept commit; with no kept
/// commit it gives none.
pub proof fn law_unreleased_history_single_group(
    kinds: Seq<(String, String)>,
    conf: conf::Repository,
    h: History,
)
    requires
        forall|i: int| 0 <= i < h.markers@.len() ==> (#[trigger] h.markers@[i]).target is None,
    ensures
        match (
            walk(kinds, crate::grammar::opt_view(conf.link), index_of(h.markers@), h.commits@),
            repository_of(kinds, conf, h),
        ) {
            (Ok(st), Ok(v)) => st.tags.len() == 0 && v.tags == (if st.bucket.len() > 0 {
                seq![TagView { name: preview_name(), commits: st.bucket }]
            } else {
                Seq::<TagView>::empty()
            }),
            (Err(_), Err(_)) => true,
            _ => false,
        },
{
    lemma_unannotated_index_empty(h.markers@);
    let t = crate::grammar::opt_view(conf.link);
    lemma_walk_without_releases(kinds, t, h.commits@);
    match walk(kinds, t, index_of(h.markers@), h.commits@) {
        Ok(st) => {
            if st.bucket.len() > 0 {
                assert(st.tags.push(TagView { name: preview_name(), commits: st.bucket }).reverse()
                    =~= seq![TagView { name: preview_name(), commits: st.bucket }]);
            } else {
                assert(st.tags.reverse() =~= Seq::<TagView>::empty());
            }
        },
        Err(_) => {},
    }
}

/// A subject `feat(api): x`, with `x` a run of text characters and `feat`
/// labelled "Features", is kept under "Features", whatever the scopes
/// allowed.
pub proof fn law_scoped_feature_kept(kinds: Seq<(String, String)>, scopes: Seq<Seq<char>>, x: Seq<char>)
    requires
        x.len() > 0,
        forall|i: int| 0 <= i < x.len() ==> is_text_char(#[trigger] x[i]),
        kind_label(kinds, "feat"@, 0) == Some("Features"@),
        scopes.contains("api"@),
    ensures
        verdict(kinds, "feat(api): "@ + x) == Verdict::Accepted("Features"@),
{
    reveal_strlit("feat(api): ");
    reveal_strlit("feat");
    reveal_strlit("Merge pull request");
    reveal_strlit("Merge branch");
    let m = "feat(api): "@ + x;
    assert(m[0] == 'f' && m[1] == 'e' && m[2] == 'a' && m[3] == 't' && m[4] == '(');
    assert(m[5] == 'a' && m[6] == 'p' && m[7] == 'i' && m[8] == ')');
    assert(m[9] == ':' && m[10] == ' ' && m[11] == x[0]);
    assert(run_end(m, 4) == 4);
    assert(run_end(m, 3) == 4);
    assert(run_end(m, 2) == 4);
    assert(run_end(m, 1) == 4);
    assert(run_end(m, 0) == 4);
    assert(run_end(m, 8) == 8);
    assert(run_end(m, 7) == 8);
    assert(run_end(m, 6) == 8);
    assert(run_end(m, 5) == 8);
    assert(m.subrange(0, 4) =~= "feat"@);
    assert(parse(m) == Some::<(Seq<char>, Option<Seq<char>>)>(("feat"@, Some(m.subrange(5, 8)))));
    assert(!starts_with(m, "Merge pull request"@)) by {
        if starts_with(m, "Merge pull request"@) {
            assert(m.take(18)[0] == m[0]);
            assert("Merge pull request"@[0] == 'M');
        }
    }
    assert(!starts_with(m, "Merge branch"@)) by {
        if starts_with(m, "Merge branch"@) {
            assert(m.take(12)[0] == m[0]);
            assert("Merge branch"@[0] == 'M');
        }
    }
    assert(!is_merge(m));
}

/// A commit whose subject starts with "Merge branch" is never kept: its
/// step leaves the walk as it was, so it stands in no group.
pub proof fn law_merge_never_kept(
    kinds: Seq<(String, String)>,
    template: Option<Seq<char>>,
    index: Seq<(Seq<char>, Seq<char>)>,
    st: WalkState,
    r: CommitRecord,
)
    requires
        resolve(template, r) is Ok,
        starts_with(resolve(template, r)->Ok_0.message, "Merge branch"@),
    ensures
        accepted_label(kinds, resolve(template, r)->Ok_0.message) is None,
        step(kinds, template, index, st, r) == Ok::<WalkState, crate::parser::CommitError>(st),
{
}

/// A release closes only at the target of an annotated marker of that name:
/// a lightweight marker never closes one.
pub proof fn law_only_annotated_markers_close(ms: Seq<Marker>, id: Seq<char>)
    ensures
        release_of(index_of(ms), id) is Some ==> exists|i: int|
            0 <= i < ms.len() && (#[trigger] ms[i]).target is Some && ms[i].target->0@ == id
                && ms[i].name@ == release_of(index_of(ms), id)->0,
    decreases ms.len(),
{
    if ms.len() > 0 {
        let rest = ms.drop_last();
        law_only_annotated_markers_close(rest, id);
        let last = ms.last();
        match last.target {
            Some(t) => {
                let ix = index_of(rest).push((t@, last.name@));
                assert(ix.drop_last() =~= index_of(rest));
                if t@ == id {
                    assert(ms[ms.len() - 1] == last);
                } else if release_of(index_of(ms), id) is Some {
                    let i = choose|i: int|
                        0 <= i < rest.len() && (#[trigger] rest[i]).target is Some
                            && rest[i].target->0@ == id && rest[i].name@ == release_of(
                            index_of(rest),
                            id,
                        )->0;
                    assert(ms[i] == rest[i]);
                }
            },
            None => {
                if release_of(index_of(ms), id) is Some {
                    let i = choose|i: int|
                        0 <= i < rest.len() && (#[trigger] rest[i]).target is Some
                            && rest[i].target->0@ == id && rest[i].name@ == release_of(
                            index_of(rest),
                            id,
                        )->0;
                    assert(ms[i] == rest[i]);
                }
            },
        }
    }
}

/// Two runs over the same history and configuration give the same
/// repository: the same commits (hash, date, link), in the same groups and
/// the same order.
pub proof fn law_runs_repeat(
    kinds: Seq<(String, String)>,
    conf: conf::Repository,
    h: History,
    first: Result<Repository, RepositoryError>,
    second: Result<Repository, RepositoryError>,
)
    requires
        repository_result_view(first) == repository_of(kinds, conf, h),
        repository_result_view(second) == repository_of(kinds, conf, h),
    ensures
        repository_result_view(first) == repository_result_view(second),
{
}

proof fn lemma_walk_fails_at(
    kinds: Seq<(String, String)>,
    template: Option<Seq<char>>,
    index: Seq<(Seq<char>, Seq<char>)>,
    rs: Seq<CommitRecord>,
    j: int,
)
    requires
        0 <= j < rs.len(),
        resolve(template, rs[j]) is Err,
    ensures
        walk(kinds, template, index, rs) is Err,
    decreases rs.len(),
{
    if j < rs.len() - 1 {
        lemma_walk_fails_at(kinds, template, index, rs.drop_last(), j);
    }
}

proof fn lemma_changelog_fails_at(
    conf: conf::Configuration,
    hs: Seq<Result<History, String>>,
    i: int,
    n: int,
)
    requires
        0 <= i < n,
        repository_at(conf.kinds@, conf.repositories@[i], hs[i]) is Err,
    ensures
        changelog_of(conf, hs, n) is Err,
    decreases n,
{
    if i < n - 1 {
        lemma_changelog_fails_at(conf, hs, i, n - 1);
    }
}

/// A commit with neither an author nor a committer, in any repository, fails
/// the whole run: no changelog is returned, whatever the other repositories
/// hold.
pub proof fn law_missing_author_fails_run(
    conf: conf::Configuration,
    hs: Seq<Result<History, String>>,
    i: int,
    j: int,
)
    requires
        hs.len() == conf.repositories@.len(),
        0 <= i < hs.len(),
        hs[i] is Ok,
        0 <= j < hs[i]->Ok_0.commits@.len(),
        hs[i]->Ok_0.commits@[j].author is None,
        hs[i]->Ok_0.commits@[j].committer is None,
    ensures
        changelog_of(conf, hs, hs.len() as int) is Err,
{
    let h = hs[i]->Ok_0;
    let c = conf.repositories@[i];
    let t = crate::grammar::opt_view(c.link);
    lemma_walk_fails_at(conf.kinds@, t, index_of(h.markers@), h.commits@, j);
    lemma_changelog_fails_at(conf, hs, i, hs.len() as int);
}

} // verus!
