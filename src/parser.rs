//! Commits, releases and the changelog, built from a repository's history.
use vstd::prelude::*;

use crate::conf;
use crate::grammar::{opt_view, parse, parse_subject};

verus! {

/// The earliest commit time accepted: 0001-01-01T00:00:00Z.
pub const MIN_SECONDS: i64 = -62135596800;

/// The latest commit time accepted: 9999-12-31T23:59:59Z.
pub const MAX_SECONDS: i64 = 253402300799;

/// Number of characters of a hash that are shown.
pub const SHORT_HASH: usize = 7;

/// The calendar date, `YYYY-MM-DD` in UTC, of a time in seconds since the epoch.
pub uninterp spec fn utc_date_of(seconds: int) -> Seq<char>;

/// Relies on the `time` crate: `at_utc` turns the seconds into a broken-down
/// UTC time and `strftime("%F")` prints its date. `gmtime_r` fails, and
/// `at_utc` panics, only far outside the range admitted here; `%F` is a
/// valid specifier, so `strftime` returns `Ok` for every such time.
#[verifier::external_body]
fn utc_date(seconds: i64) -> (r: String)
    requires
        MIN_SECONDS <= seconds <= MAX_SECONDS,
    ensures
        r@ == utc_date_of(seconds as int),
{
    match time::at_utc(time::Timespec::new(seconds, 0)).strftime("%F") {
        Ok(date) => date.to_string(),
        Err(_) => String::new(),
    }
}

/// The link that a template gives for a hash, or `None` where the template
/// does not format.
pub uninterp spec fn link_of(template: Seq<char>, hash: Seq<char>) -> Option<Seq<char>>;

/// Relies on `strfmt::strfmt`: formats the template with the one variable
/// `hash`, and fails on a malformed template or an unknown key.
#[verifier::external_body]
fn format_link(template: &str, hash: &str) -> (r: Option<String>)
    ensures
        opt_view(r) == link_of(template@, hash@),
{
    let mut vars = std::collections::HashMap::new();
    vars.insert(String::from("hash"), String::from(hash));
    match strfmt::strfmt(template, &vars) {
        Ok(link) => Some(link),
        Err(_) => None,
    }
}

/// A commit as the repository holds it.
#[derive(Clone, Debug)]
pub struct CommitRecord {
    /// The full hash.
    pub id: String,
    pub author: Option<String>,
    pub committer: Option<String>,
    /// The first line of the message.
    pub summary: Option<String>,
    pub message: Option<String>,
    /// Seconds since the epoch.
    pub seconds: i64,
}

/// Why a commit could not be read.
#[derive(Clone, Copy, Debug, PartialEq, Eq, Structural)]
pub enum CommitError {
    /// Neither an author nor a committer name.
    MissingAuthor,
    /// Neither a summary nor a message.
    MissingMessage,
    /// The commit time lies outside `MIN_SECONDS..=MAX_SECONDS`.
    InvalidDate,
    /// The link template does not format.
    LinkFormat,
}

/// One commit of the changelog.
#[derive(Clone, Debug)]
pub struct Commit {
    /// The first seven characters of the hash.
    pub hash: String,
    pub message: String,
    pub author: String,
    /// `YYYY-MM-DD`, in UTC.
    pub date: String,
    pub link: Option<String>,
}

pub struct CommitView {
    pub hash: Seq<char>,
    pub message: Seq<char>,
    pub author: Seq<char>,
    pub date: Seq<char>,
    pub link: Option<Seq<char>>,
}

impl View for Commit {
    type V = CommitView;

    open spec fn view(&self) -> CommitView {
        CommitView {
            hash: self.hash@,
            message: self.message@,
            author: self.author@,
            date: self.date@,
            link: opt_view(self.link),
        }
    }
}

/// The first of two optional strings that is present.
pub open spec fn first_present(a: Option<String>, b: Option<String>) -> Option<Seq<char>> {
    match a {
        Some(x) => Some(x@),
        None => opt_view(b),
    }
}

/// A hash cut to its first seven characters.
pub open spec fn short_hash(id: Seq<char>) -> Seq<char> {
    if id.len() > SHORT_HASH {
        id.take(SHORT_HASH as int)
    } else {
        id
    }
}

/// A commit from its record, once its date (`None` where the time is out of
/// range) and its link (`None` where no template is given) are known.
pub open spec fn assemble(
    r: CommitRecord,
    date: Option<Seq<char>>,
    link: Option<Option<Seq<char>>>,
) -> Result<CommitView, CommitError> {
    match (first_present(r.author, r.committer), first_present(r.summary, r.message)) {
        (None, _) => Err(CommitError::MissingAuthor),
        (Some(_), None) => Err(CommitError::MissingMessage),
        (Some(author), Some(message)) => match date {
            None => Err(CommitError::InvalidDate),
            Some(date) => match link {
                Some(None) => Err(CommitError::LinkFormat),
                _ => Ok(
                    CommitView {
                        hash: short_hash(r.id@),
                        message,
                        author,
                        date,
                        link: match link {
                            Some(l) => l,
                            None => None,
                        },
                    },
                ),
            },
        },
    }
}

/// The commit that a record gives, under an optional link template.
pub open spec fn resolve(template: Option<Seq<char>>, r: CommitRecord) -> Result<CommitView, CommitError> {
    assemble(
        r,
        if MIN_SECONDS <= r.seconds <= MAX_SECONDS {
            Some(utc_date_of(r.seconds as int))
        } else {
            None
        },
        match template {
            Some(t) => Some(link_of(t, r.id@)),
            None => None,
        },
    )
}

pub open spec fn commit_result_view(r: Result<Commit, CommitError>) -> Result<CommitView, CommitError> {
    match r {
        Ok(c) => Ok(c@),
        Err(e) => Err(e),
    }
}

fn first_of(a: &Option<String>, b: &Option<String>) -> (r: Option<String>)
    ensures
        opt_view(r) == first_present(*a, *b),
{
    match a {
        Some(x) => Some(x.clone()),
        None => match b {
            Some(y) => Some(y.clone()),
            None => None,
        },
    }
}

fn shorten(id: &String) -> (r: String)
    ensures
        r@ == short_hash(id@),
{
    let s = id.as_str();
    let n = s.unicode_len();
    if n > SHORT_HASH {
        s.substring_char(0, SHORT_HASH).to_owned()
    } else {
        id.clone()
    }
}

impl Commit {
    /// Builds a commit from its record, its date (`None` where the time is out
    /// of range) and its link (`None` where no template is given, `Some(None)`
    /// where the template did not format). The author falls back to the
    /// committer, the summary to the message.
    pub fn from_parts(
        record: &CommitRecord,
        date: Option<String>,
        link: Option<Option<String>>,
    ) -> (r: Result<Commit, CommitError>)
        ensures
            commit_result_view(r) == assemble(
                *record,
                opt_view(date),
                match link {
                    Some(l) => Some(opt_view(l)),
                    None => None,
                },
            ),
    {
        let author = match first_of(&record.author, &record.committer) {
            Some(a) => a,
            None => return Err(CommitError::MissingAuthor),
        };
        let message = match first_of(&record.summary, &record.message) {
            Some(m) => m,
            None => return Err(CommitError::MissingMessage),
        };
        let date = match date {
            Some(d) => d,
            None => return Err(CommitError::InvalidDate),
        };
        let link = match link {
            Some(Some(l)) => Some(l),
            Some(None) => return Err(CommitError::LinkFormat),
            None => None,
        };
        Ok(Commit { hash: shorten(&record.id), message, author, date, link })
    }

    /// Reads a commit: author (else committer), summary (else message), UTC
    /// date, and the link built from the full hash; the hash is then cut to
    /// seven characters.
    pub fn try_from(conf: &conf::Repository, record: &CommitRecord) -> (r: Result<Commit, CommitError>)
        ensures
            commit_result_view(r) == resolve(opt_view(conf.link), *record),
    {
        let date = if MIN_SECONDS <= record.seconds && record.seconds <= MAX_SECONDS {
            Some(utc_date(record.seconds))
        } else {
            None
        };
        let link = match &conf.link {
            Some(template) => Some(format_link(template.as_str(), record.id.as_str())),
            None => None,
        };
        Commit::from_parts(record, date, link)
    }
}


/// Whether `m` begins with `p`.
pub open spec fn starts_with(m: Seq<char>, p: Seq<char>) -> bool {
    p.len() <= m.len() && m.take(p.len() as int) == p
}

/// A subject of a merge commit.
pub open spec fn is_merge(m: Seq<char>) -> bool {
    starts_with(m, "Merge pull request"@) || starts_with(m, "Merge branch"@)
}

/// The label of the first entry for `kind` at or after `i`.
pub open spec fn kind_label(kinds: Seq<(String, String)>, kind: Seq<char>, i: int) -> Option<Seq<char>>
    decreases kinds.len() - i,
{
    if i < 0 || i >= kinds.len() {
        None
    } else if kinds[i].0@ == kind {
        Some(kinds[i].1@)
    } else {
        kind_label(kinds, kind, i + 1)
    }
}

/// What the classifier decides of a subject.
pub enum Verdict {
    Merge,
    Unparseable,
    UnknownKind,
    Accepted(Seq<char>),
}

/// The decision on a subject: merge commits are left out, then subjects that
/// do not parse, then kinds that are not configured; any other commit goes to
/// the label of its kind. Scopes do not decide: a scope outside the allow-list
/// keeps its commit.
pub open spec fn verdict(kinds: Seq<(String, String)>, m: Seq<char>) -> Verdict {
    if is_merge(m) {
        Verdict::Merge
    } else {
        match parse(m) {
            None => Verdict::Unparseable,
            Some((kind, _)) => match kind_label(kinds, kind, 0) {
                None => Verdict::UnknownKind,
                Some(label) => Verdict::Accepted(label),
            },
        }
    }
}

/// The label under which a subject is kept, if it is kept.
pub open spec fn accepted_label(kinds: Seq<(String, String)>, m: Seq<char>) -> Option<Seq<char>> {
    match verdict(kinds, m) {
        Verdict::Accepted(label) => Some(label),
        _ => None,
    }
}

/// What the classifier decides of a commit.
#[derive(Clone, Debug)]
pub enum Classification {
    /// A merge commit.
    Merge,
    /// The subject does not follow the grammar.
    Unparseable,
    /// The kind is not configured.
    UnknownKind,
    /// Kept, under this label.
    Accepted(String),
}

impl View for Classification {
    type V = Verdict;

    open spec fn view(&self) -> Verdict {
        match self {
            Classification::Merge => Verdict::Merge,
            Classification::Unparseable => Verdict::Unparseable,
            Classification::UnknownKind => Verdict::UnknownKind,
            Classification::Accepted(l) => Verdict::Accepted(l@),
        }
    }
}

fn has_prefix(m: &Vec<char>, p: &str) -> (r: bool)
    ensures
        r == starts_with(m@, p@),
{
    let n = p.unicode_len();
    if n > m.len() {
        return false;
    }
    let mut i: usize = 0;
    while i < n
        invariant
            n == p@.len(),
            n <= m@.len(),
            i <= n,
            m@.take(i as int) == p@.take(i as int),
        decreases n - i,
    {
        if m[i] != p.get_char(i) {
            assert(m@.take(n as int)[i as int] != p@[i as int]);
            return false;
        }
        assert(m@.take(i + 1) =~= m@.take(i as int).push(m@[i as int]));
        assert(p@.take(i + 1) =~= p@.take(i as int).push(p@[i as int]));
        i = i + 1;
    }
    assert(p@.take(n as int) =~= p@);
    true
}

/// The label configured for a kind, the first entry winning.
pub fn label_of(kinds: &Vec<(String, String)>, kind: &String) -> (r: Option<String>)
    ensures
        opt_view(r) == kind_label(kinds@, kind@, 0),
{
    let mut i: usize = 0;
    while i < kinds.len()
        invariant
            i <= kinds@.len(),
            kind_label(kinds@, kind@, i as int) == kind_label(kinds@, kind@, 0),
        decreases kinds@.len() - i,
    {
        if kinds[i].0 == *kind {
            return Some(kinds[i].1.clone());
        }
        i = i + 1;
    }
    None
}

/// Classifies a commit subject against the configured kinds.
pub fn classify(kinds: &Vec<(String, String)>, message: &String) -> (r: Classification)
    ensures
        r@ == verdict(kinds@, message@),
{
    let m = crate::grammar::chars_of(message.as_str());
    if has_prefix(&m, "Merge pull request") || has_prefix(&m, "Merge branch") {
        return Classification::Merge;
    }
    match parse_subject(message.as_str()) {
        None => Classification::Unparseable,
        Some(subject) => match label_of(kinds, &subject.kind) {
            None => Classification::UnknownKind,
            Some(label) => Classification::Accepted(label),
        },
    }
}


/// A release marker: its name, and the commit that its annotation object
/// points at (`None` for a lightweight marker, which has no such object).
#[derive(Clone, Debug)]
pub struct Marker {
    pub name: String,
    pub target: Option<String>,
}

pub open spec fn pairs_view(s: Seq<(String, String)>) -> Seq<(Seq<char>, Seq<char>)> {
    s.map_values(|p: (String, String)| (p.0@, p.1@))
}

/// The pairs (commit, release name) of the annotated markers, in order.
/// Lightweight markers leave no pair.
pub open spec fn index_of(ms: Seq<Marker>) -> Seq<(Seq<char>, Seq<char>)>
    decreases ms.len(),
{
    if ms.len() == 0 {
        Seq::empty()
    } else {
        let prev = index_of(ms.drop_last());
        match ms.last().target {
            Some(t) => prev.push((t@, ms.last().name@)),
            None => prev,
        }
    }
}

/// The release that closes at commit `id`: the last pair for it.
pub open spec fn release_of(ix: Seq<(Seq<char>, Seq<char>)>, id: Seq<char>) -> Option<Seq<char>>
    decreases ix.len(),
{
    if ix.len() == 0 {
        None
    } else if ix.last().0 == id {
        Some(ix.last().1)
    } else {
        release_of(ix.drop_last(), id)
    }
}

/// Builds the index from commits to the releases that close there.
pub fn tag_index(markers: &Vec<Marker>) -> (r: Vec<(String, String)>)
    ensures
        pairs_view(r@) == index_of(markers@),
{
    let mut r: Vec<(String, String)> = Vec::new();
    let mut i: usize = 0;
    while i < markers.len()
        invariant
            i <= markers@.len(),
            pairs_view(r@) == index_of(markers@.take(i as int)),
        decreases markers@.len() - i,
    {
        assert(markers@.take(i + 1).drop_last() =~= markers@.take(i as int));
        match &markers[i].target {
            Some(t) => {
                r.push((t.clone(), markers[i].name.clone()));
            },
            None => {},
        }
        assert(pairs_view(r@) =~= index_of(markers@.take(i + 1)));
        i = i + 1;
    }
    assert(markers@.take(markers@.len() as int) =~= markers@);
    r
}

/// The release that closes at commit `id`, if any.
pub fn release_at(index: &Vec<(String, String)>, id: &String) -> (r: Option<String>)
    ensures
        opt_view(r) == release_of(pairs_view(index@), id@),
{
    let mut i: usize = index.len();
    assert(pairs_view(index@).take(i as int) =~= pairs_view(index@));
    while i > 0
        invariant
            i <= index@.len(),
            release_of(pairs_view(index@).take(i as int), id@) == release_of(pairs_view(index@), id@),
        decreases i,
    {
        let ghost t = pairs_view(index@).take(i as int);
        assert(t.drop_last() =~= pairs_view(index@).take(i - 1));
        if index[i - 1].0 == *id {
            return Some(index[i - 1].1.clone());
        }
        i = i - 1;
    }
    None
}

/// Commits grouped by label, in the order in which labels were first seen.
pub type BucketView = Seq<(Seq<char>, Seq<CommitView>)>;

pub open spec fn commits_view(v: Seq<Commit>) -> Seq<CommitView> {
    v.map_values(|c: Commit| c@)
}

pub open spec fn bucket_view(b: Seq<(String, Vec<Commit>)>) -> BucketView {
    b.map_values(|e: (String, Vec<Commit>)| (e.0@, commits_view(e.1@)))
}

/// The first position at or after `i` with this label, or the length.
pub open spec fn find_label(b: BucketView, label: Seq<char>, i: int) -> int
    decreases b.len() - i,
{
    if i < 0 || i >= b.len() {
        b.len() as int
    } else if b[i].0 == label {
        i
    } else {
        find_label(b, label, i + 1)
    }
}

proof fn lemma_find_label_range(b: BucketView, label: Seq<char>, i: int)
    requires
        0 <= i <= b.len(),
    ensures
        i <= find_label(b, label, i) <= b.len(),
        find_label(b, label, i) < b.len() ==> b[find_label(b, label, i)].0 == label,
    decreases b.len() - i,
{
    if i < b.len() && b[i].0 != label {
        lemma_find_label_range(b, label, i + 1);
    }
}

/// A commit appended under its label: to the group of that label, or to a
/// new group at the end.
pub open spec fn bucket_push(b: BucketView, label: Seq<char>, c: CommitView) -> BucketView {
    let i = find_label(b, label, 0);
    if i < b.len() {
        b.update(i, (label, b[i].1.push(c)))
    } else {
        b.push((label, seq![c]))
    }
}

fn push_to_bucket(b: &mut Vec<(String, Vec<Commit>)>, label: String, c: Commit)
    ensures
        bucket_view(final(b)@) == bucket_push(bucket_view(old(b)@), label@, c@),
{
    let ghost bv = bucket_view(b@);
    let ghost cv = c@;
    let ghost lv = label@;
    let mut i: usize = 0;
    while i < b.len()
        invariant
            i <= b@.len(),
            bv == bucket_view(b@),
            b@ == old(b)@,
            cv == c@,
            lv == label@,
            find_label(bv, label@, i as int) == find_label(bv, label@, 0),
        decreases b@.len() - i,
    {
        if b[i].0 == label {
            proof {
                lemma_find_label_range(bv, label@, 0);
            }
            let ghost old_b = b@;
            let (l, mut v) = b.remove(i);
            let ghost old_v = v@;
            v.push(c);
            assert(commits_view(v@) =~= commits_view(old_v).push(cv));
            b.insert(i, (l, v));
            assert(b@ =~= old_b.update(i as int, b@[i as int]));
            assert(find_label(bv, label@, 0) == i);
            assert(bucket_view(b@) =~= bucket_push(bv, lv, cv));
            return;
        }
        i = i + 1;
    }
    let v = vec![c];
    assert(commits_view(v@) =~= seq![cv]);
    b.push((label, v));
    assert(find_label(bv, lv, 0) == bv.len());
    assert(bucket_view(b@) =~= bucket_push(bv, lv, cv));
}


/// One release: its name, and its commits grouped by label.
#[derive(Clone, Debug)]
pub struct Tag {
    pub name: String,
    /// Labels in the order in which they were first seen; commits oldest first.
    pub commits: Vec<(String, Vec<Commit>)>,
}

pub struct TagView {
    pub name: Seq<char>,
    pub commits: BucketView,
}

impl View for Tag {
    type V = TagView;

    open spec fn view(&self) -> TagView {
        TagView { name: self.name@, commits: bucket_view(self.commits@) }
    }
}

impl Tag {
    pub fn from(name: String, commits: Vec<(String, Vec<Commit>)>) -> (r: Tag)
        ensures
            r.name == name,
            r.commits == commits,
    {
        Tag { name, commits }
    }
}

pub open spec fn tags_view(v: Seq<Tag>) -> Seq<TagView> {
    v.map_values(|t: Tag| t@)
}

/// The history of one repository, read from its store.
#[derive(Clone, Debug)]
pub struct History {
    pub markers: Vec<Marker>,
    /// The commits to walk, oldest first.
    pub commits: Vec<CommitRecord>,
}

/// The releases closed so far and the commits not yet released.
pub struct WalkState {
    pub tags: Seq<TagView>,
    pub bucket: BucketView,
}

/// One commit of the walk. A kept commit joins the open group; where a
/// release closes at it, the group becomes that release and a new one opens.
/// A commit that is not kept closes no release.
pub open spec fn step(
    kinds: Seq<(String, String)>,
    template: Option<Seq<char>>,
    index: Seq<(Seq<char>, Seq<char>)>,
    st: WalkState,
    r: CommitRecord,
) -> Result<WalkState, CommitError> {
    match resolve(template, r) {
        Err(e) => Err(e),
        Ok(c) => match accepted_label(kinds, c.message) {
            None => Ok(st),
            Some(label) => {
                let b = bucket_push(st.bucket, label, c);
                match release_of(index, r.id@) {
                    Some(name) => Ok(
                        WalkState { tags: st.tags.push(TagView { name, commits: b }), bucket: seq![] },
                    ),
                    None => Ok(WalkState { tags: st.tags, bucket: b }),
                }
            },
        },
    }
}

/// The walk over commits, oldest first; it stops at the first commit that
/// cannot be read, with that commit's hash.
pub open spec fn walk(
    kinds: Seq<(String, String)>,
    template: Option<Seq<char>>,
    index: Seq<(Seq<char>, Seq<char>)>,
    rs: Seq<CommitRecord>,
) -> Result<WalkState, (Seq<char>, CommitError)>
    decreases rs.len(),
{
    if rs.len() == 0 {
        Ok(WalkState { tags: seq![], bucket: seq![] })
    } else {
        match walk(kinds, template, index, rs.drop_last()) {
            Err(e) => Err(e),
            Ok(st) => match step(kinds, template, index, st, rs.last()) {
                Err(e) => Err((rs.last().id@, e)),
                Ok(next) => Ok(next),
            },
        }
    }
}

/// The name of the group of commits after the last release.
pub open spec fn preview_name() -> Seq<char> {
    "Technical preview"@
}

/// The releases of a finished walk, newest first, with a last open group
/// that is not empty standing first.
pub open spec fn finish(st: WalkState) -> Seq<TagView> {
    let all = if st.bucket.len() > 0 {
        st.tags.push(TagView { name: preview_name(), commits: st.bucket })
    } else {
        st.tags
    };
    all.reverse()
}

/// Why a repository could not be read.
#[derive(Clone, Debug)]
pub enum RepositoryError {
    /// Its store could not be read, with the cause.
    Store(String),
    /// A commit could not be read.
    Commit { id: String, cause: CommitError },
}

pub enum RepositoryFailure {
    Store(Seq<char>),
    Commit(Seq<char>, CommitError),
}

impl View for RepositoryError {
    type V = RepositoryFailure;

    open spec fn view(&self) -> RepositoryFailure {
        match self {
            RepositoryError::Store(cause) => RepositoryFailure::Store(cause@),
            RepositoryError::Commit { id, cause } => RepositoryFailure::Commit(id@, *cause),
        }
    }
}

/// One repository of the changelog.
#[derive(Clone, Debug)]
pub struct Repository {
    pub name: String,
    /// Newest release first.
    pub tags: Vec<Tag>,
}

pub struct RepositoryView {
    pub name: Seq<char>,
    pub tags: Seq<TagView>,
}

impl View for Repository {
    type V = RepositoryView;

    open spec fn view(&self) -> RepositoryView {
        RepositoryView { name: self.name@, tags: tags_view(self.tags@) }
    }
}

/// What a repository's history gives under the configuration.
pub open spec fn repository_of(
    kinds: Seq<(String, String)>,
    conf: conf::Repository,
    h: History,
) -> Result<RepositoryView, RepositoryFailure> {
    match walk(kinds, opt_view(conf.link), index_of(h.markers@), h.commits@) {
        Err((id, e)) => Err(RepositoryFailure::Commit(id, e)),
        Ok(st) => Ok(RepositoryView { name: conf.name@, tags: finish(st) }),
    }
}

pub open spec fn repository_result_view(r: Result<Repository, RepositoryError>) -> Result<
    RepositoryView,
    RepositoryFailure,
> {
    match r {
        Ok(x) => Ok(x@),
        Err(e) => Err(e@),
    }
}

proof fn lemma_walk_err_extends(
    kinds: Seq<(String, String)>,
    template: Option<Seq<char>>,
    index: Seq<(Seq<char>, Seq<char>)>,
    rs: Seq<CommitRecord>,
    n: int,
)
    requires
        0 <= n <= rs.len(),
        walk(kinds, template, index, rs.take(n)) is Err,
    ensures
        walk(kinds, template, index, rs) == walk(kinds, template, index, rs.take(n)),
    decreases rs.len() - n,
{
    if n == rs.len() {
        assert(rs.take(n) =~= rs);
    } else {
        assert(rs.take(n + 1).drop_last() =~= rs.take(n));
        lemma_walk_err_extends(kinds, template, index, rs, n + 1);
    }
}

fn reversed(v: Vec<Tag>) -> (r: Vec<Tag>)
    ensures
        tags_view(r@) == tags_view(v@).reverse(),
{
    let ghost orig = tags_view(v@);
    let mut v = v;
    let mut r: Vec<Tag> = Vec::new();
    while v.len() > 0
        invariant
            orig.len() == v@.len() + r@.len(),
            tags_view(v@) == orig.take(v@.len() as int),
            forall|j: int| 0 <= j < r@.len() ==> #[trigger] r@[j]@ == orig[orig.len() - 1 - j],
        decreases v@.len(),
    {
        let ghost before = v@;
        let t = v.pop().unwrap();
        assert(tags_view(v@) =~= orig.take(v@.len() as int));
        assert(tags_view(before)[v@.len() as int] == t@);
        assert(t@ == orig[v@.len() as int]);
        r.push(t);
    }
    assert(tags_view(r@) =~= orig.reverse());
    r
}

impl Repository {
    /// A repository with no releases yet.
    pub fn from(name: String) -> (r: Repository)
        ensures
            r.name == name,
            r.tags@.len() == 0,
    {
        Repository { name, tags: Vec::new() }
    }

    /// Walks a repository's history, oldest commit first, and groups the kept
    /// commits into releases, newest release first. Only annotated markers
    /// close a release.
    pub fn try_from(kinds: &Vec<(String, String)>, conf: &conf::Repository, history: &History) -> (r:
        Result<Repository, RepositoryError>)
        ensures
            repository_result_view(r) == repository_of(kinds@, *conf, *history),
    {
        let index = tag_index(&history.markers);
        let ghost ix = index_of(history.markers@);
        let ghost tpl = opt_view(conf.link);
        let ghost rs = history.commits@;
        let mut tags: Vec<Tag> = Vec::new();
        let mut bucket: Vec<(String, Vec<Commit>)> = Vec::new();
        let mut i: usize = 0;
        assert(rs.take(0) =~= Seq::<CommitRecord>::empty());
        assert(tags_view(tags@) =~= seq![]);
        assert(bucket_view(bucket@) =~= seq![]);
        while i < history.commits.len()
            invariant
                i <= rs.len(),
                rs == history.commits@,
                ix == pairs_view(index@),
                ix == index_of(history.markers@),
                tpl == opt_view(conf.link),
                walk(kinds@, tpl, ix, rs.take(i as int)) == Ok::<WalkState, (Seq<char>, CommitError)>(
                    WalkState { tags: tags_view(tags@), bucket: bucket_view(bucket@) },
                ),
            decreases rs.len() - i,
        {
            let record = &history.commits[i];
            assert(rs.take(i + 1).drop_last() =~= rs.take(i as int));
            assert(rs.take(i + 1).last() == rs[i as int]);
            let commit = match Commit::try_from(conf, record) {
                Ok(c) => c,
                Err(cause) => {
                    proof {
                        lemma_walk_err_extends(kinds@, tpl, ix, rs, i + 1);
                    }
                    return Err(RepositoryError::Commit { id: record.id.clone(), cause });
                },
            };
            match classify(kinds, &commit.message) {
                Classification::Accepted(label) => {
                    push_to_bucket(&mut bucket, label, commit);
                    match release_at(&index, &record.id) {
                        Some(name) => {
                            let ghost before = tags_view(tags@);
                            tags.push(Tag::from(name, bucket));
                            bucket = Vec::new();
                            assert(tags_view(tags@) =~= before.push(tags@.last()@));
                            assert(bucket_view(bucket@) =~= seq![]);
                        },
                        None => {},
                    }
                },
                _ => {},
            }
            i = i + 1;
        }
        assert(rs.take(rs.len() as int) =~= rs);
        if bucket.len() > 0 {
            let ghost before = tags_view(tags@);
            tags.push(Tag::from(String::from_str("Technical preview"), bucket));
            assert(tags_view(tags@) =~= before.push(tags@.last()@));
            proof {
                reveal_strlit("Technical preview");
            }
        }
        Ok(Repository { name: conf.name.clone(), tags: reversed(tags) })
    }
}


/// The whole changelog: one entry per configured repository, in order.
#[derive(Clone, Debug)]
pub struct Changelog {
    pub repositories: Vec<Repository>,
}

/// Why the changelog could not be built: the first repository that failed.
#[derive(Clone, Debug)]
pub struct ChangelogError {
    pub repository: String,
    pub cause: RepositoryError,
}

pub open spec fn repositories_view(v: Seq<Repository>) -> Seq<RepositoryView> {
    v.map_values(|r: Repository| r@)
}

/// What one repository gives, where its history could be read or not.
pub open spec fn repository_at(
    kinds: Seq<(String, String)>,
    conf: conf::Repository,
    h: Result<History, String>,
) -> Result<RepositoryView, RepositoryFailure> {
    match h {
        Err(cause) => Err(RepositoryFailure::Store(cause@)),
        Ok(h) => repository_of(kinds, conf, h),
    }
}

/// The first `n` repositories; the first failure ends the run, with the
/// failing repository's name.
pub open spec fn changelog_of(
    conf: conf::Configuration,
    hs: Seq<Result<History, String>>,
    n: int,
) -> Result<Seq<RepositoryView>, (Seq<char>, RepositoryFailure)>
    decreases n,
{
    if n <= 0 {
        Ok(seq![])
    } else {
        match changelog_of(conf, hs, n - 1) {
            Err(e) => Err(e),
            Ok(prev) => match repository_at(conf.kinds@, conf.repositories@[n - 1], hs[n - 1]) {
                Err(e) => Err((conf.repositories@[n - 1].name@, e)),
                Ok(r) => Ok(prev.push(r)),
            },
        }
    }
}

pub open spec fn changelog_result_view(r: Result<Changelog, ChangelogError>) -> Result<
    Seq<RepositoryView>,
    (Seq<char>, RepositoryFailure),
> {
    match r {
        Ok(c) => Ok(repositories_view(c.repositories@)),
        Err(e) => Err((e.repository@, e.cause@)),
    }
}

proof fn lemma_changelog_err_extends(
    conf: conf::Configuration,
    hs: Seq<Result<History, String>>,
    k: int,
    n: int,
)
    requires
        0 <= k <= n,
        changelog_of(conf, hs, k) is Err,
    ensures
        changelog_of(conf, hs, n) == changelog_of(conf, hs, k),
    decreases n - k,
{
    if k < n {
        lemma_changelog_err_extends(conf, hs, k + 1, n);
    }
}

impl Changelog {
    /// Builds the changelog from each repository's history (or the error met
    /// in reading it), in the configured order. The first repository that
    /// fails ends the run and no changelog is returned.
    pub fn try_from(conf: &conf::Configuration, histories: &Vec<Result<History, String>>) -> (r: Result<
        Changelog,
        ChangelogError,
    >)
        requires
            histories@.len() == conf.repositories@.len(),
        ensures
            changelog_result_view(r) == changelog_of(*conf, histories@, histories@.len() as int),
    {
        let mut repositories: Vec<Repository> = Vec::new();
        let mut i: usize = 0;
        let n = histories.len();
        assert(repositories_view(repositories@) =~= seq![]);
        while i < n
            invariant
                n == histories@.len(),
                n == conf.repositories@.len(),
                i <= n,
                changelog_of(*conf, histories@, i as int) == Ok::<
                    Seq<RepositoryView>,
                    (Seq<char>, RepositoryFailure),
                >(repositories_view(repositories@)),
            decreases n - i,
        {
            let repo_conf = &conf.repositories[i];
            let result = match &histories[i] {
                Err(cause) => Err(RepositoryError::Store(cause.clone())),
                Ok(history) => Repository::try_from(&conf.kinds, repo_conf, history),
            };
            match result {
                Ok(repository) => {
                    let ghost before = repositories_view(repositories@);
                    repositories.push(repository);
                    assert(repositories_view(repositories@) =~= before.push(repositories@.last()@));
                },
                Err(cause) => {
                    let e = ChangelogError { repository: repo_conf.name.clone(), cause };
                    proof {
                        lemma_changelog_err_extends(*conf, histories@, i + 1, n as int);
                    }
                    return Err(e);
                },
            }
            i = i + 1;
        }
        Ok(Changelog { repositories })
    }
}

} // verus!
