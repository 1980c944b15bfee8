//! The harvesting pass: which drop-directory entries are candidates, and
//! what happens to each candidate as its lock, read, upload and delete
//! succeed or fail.
//!
//! Each candidate runs through [`Stage`] on its own, so one failure never
//! touches another file. [`harvest_pass`] runs a whole pass over an
//! in-memory directory and store; the real driver takes the same steps.
use vstd::prelude::*;
use vstd::string::StrSliceExecFns;
use vstd::string::StringExecFns;

verus! {

/// How the handling of one candidate ended.
#[derive(PartialEq, Eq, Structural, Clone, Copy, Debug)]
pub enum Outcome {
    /// A writer holds the lock: the file is left for a later pass.
    Busy,
    /// The file could not be read: it is left for a later pass.
    ReadFailed,
    /// The upload failed: the file is left for a later pass.
    UploadFailed,
    /// Uploaded, but the local file could not be deleted; it will be offered
    /// again and uploaded again under the same key.
    Uploaded,
    /// Uploaded and deleted.
    Harvested,
}

/// Where the handling of one candidate stands: the step to take next, or
/// how it ended.
#[derive(PartialEq, Eq, Structural, Clone, Copy, Debug)]
pub enum Stage {
    /// Open the file and try a non-blocking shared lock on it.
    Lock,
    /// Read the whole file.
    Read,
    /// Upload the bytes under the file's base name.
    Upload,
    /// Delete the local file.
    Delete,
    Done(Outcome),
}

/// The stage that follows `s` when its step succeeded (`ok`) or failed.
pub open spec fn spec_advance(s: Stage, ok: bool) -> Stage {
    match s {
        Stage::Lock => if ok { Stage::Read } else { Stage::Done(Outcome::Busy) },
        Stage::Read => if ok { Stage::Upload } else { Stage::Done(Outcome::ReadFailed) },
        Stage::Upload => if ok { Stage::Delete } else { Stage::Done(Outcome::UploadFailed) },
        Stage::Delete => if ok { Stage::Done(Outcome::Harvested) } else { Stage::Done(Outcome::Uploaded) },
        Stage::Done(o) => Stage::Done(o),
    }
}

/// Steps left before a candidate is done.
pub open spec fn steps_left(s: Stage) -> nat {
    match s {
        Stage::Lock => 4,
        Stage::Read => 3,
        Stage::Upload => 2,
        Stage::Delete => 1,
        Stage::Done(_) => 0,
    }
}

/// The stage after the current step of `s` succeeded or failed.
pub fn advance(s: Stage, ok: bool) -> (r: Stage)
    requires
        !(s is Done),
    ensures
        r == spec_advance(s, ok),
        steps_left(r) < steps_left(s),
{
    match s {
        Stage::Lock => if ok { Stage::Read } else { Stage::Done(Outcome::Busy) },
        Stage::Read => if ok { Stage::Upload } else { Stage::Done(Outcome::ReadFailed) },
        Stage::Upload => if ok { Stage::Delete } else { Stage::Done(Outcome::UploadFailed) },
        Stage::Delete => if ok { Stage::Done(Outcome::Harvested) } else { Stage::Done(Outcome::Uploaded) },
        Stage::Done(o) => Stage::Done(o),
    }
}

/// A candidate reached the upload step only if its lock was taken and it was
/// read; it is deleted only after its upload succeeded.
pub proof fn lemma_upload_needs_lock(lock_ok: bool, read_ok: bool)
    ensures
        spec_advance(spec_advance(Stage::Lock, lock_ok), read_ok) == Stage::Upload ==> lock_ok
            && read_ok,
        forall|s: Stage, ok: bool| spec_advance(s, ok) == Stage::Delete ==> s == Stage::Upload && ok,
{
}

/// Whether a file's outcome leaves it on disk.
pub open spec fn keeps_file(o: Outcome) -> bool {
    o != Outcome::Harvested
}

/// Whether a file's outcome means its bytes reached the store.
pub open spec fn was_uploaded(o: Outcome) -> bool {
    o == Outcome::Harvested || o == Outcome::Uploaded
}

/// A drop-directory entry as the scanner sees it.
pub struct Entry {
    pub path: String,
    pub is_dir: bool,
}

/// The scanner's candidates: the paths of the entries that are not
/// directories, in listing order.
pub open spec fn candidates_of(entries: Seq<Entry>) -> Seq<Seq<char>> {
    entries.filter(|e: Entry| !e.is_dir).map_values(|e: Entry| e.path@)
}

pub fn candidates(entries: &Vec<Entry>) -> (r: Vec<String>)
    ensures
        r@.map_values(|p: String| p@) == candidates_of(entries@),
{
    let mut r: Vec<String> = Vec::new();
    let mut i: usize = 0;
    while i < entries.len()
        invariant
            0 <= i <= entries@.len(),
            r@.map_values(|p: String| p@) == candidates_of(entries@.take(i as int)),
        decreases entries@.len() - i,
    {
        let ghost pre = entries@.take(i as int);
        let ghost nxt = entries@.take(i + 1);
        let ghost before = r@.map_values(|p: String| p@);
        let ghost keep = |e: Entry| !e.is_dir;
        proof {
            reveal(Seq::filter);
            assert(nxt.drop_last() =~= pre);
            assert(nxt.last() == entries@[i as int]);
        }
        if !entries[i].is_dir {
            r.push(entries[i].path.clone());
            proof {
                assert(nxt.filter(keep) == pre.filter(keep).push(entries@[i as int]));
                assert(r@.map_values(|p: String| p@) =~= before.push(entries@[i as int].path@));
                assert(candidates_of(nxt) =~= before.push(entries@[i as int].path@));
            }
        } else {
            proof {
                assert(nxt.filter(keep) == pre.filter(keep));
            }
        }
        i = i + 1;
    }
    assert(entries@.take(entries@.len() as int) =~= entries@);
    r
}

/// Index just past the last `'/'` of `s`, or 0 if there is none.
pub open spec fn name_start(s: Seq<char>) -> int
    decreases s.len(),
{
    if s.len() == 0 {
        0
    } else if s.last() == '/' {
        s.len() as int
    } else {
        name_start(s.drop_last())
    }
}

/// The base name of a path: what follows its last `'/'`.
pub open spec fn base_name_of(s: Seq<char>) -> Seq<char> {
    s.subrange(name_start(s), s.len() as int)
}

proof fn lemma_name_start_bounds(s: Seq<char>)
    ensures
        0 <= name_start(s) <= s.len(),
    decreases s.len(),
{
    if s.len() > 0 && s.last() != '/' {
        lemma_name_start_bounds(s.drop_last());
    }
}

/// The storage key for a file: its base name, or `None` when the path ends
/// in `'/'` or is empty.
pub fn upload_key(path: &str) -> (r: Option<String>)
    ensures
        r is None <==> base_name_of(path@).len() == 0,
        r matches Some(k) ==> k@ == base_name_of(path@),
{
    let n = path.unicode_len();
    let mut i: usize = n;
    assert(path@.take(n as int) =~= path@);
    while i > 0 && path.get_char(i - 1) != '/'
        invariant
            n == path@.len(),
            0 <= i <= n,
            name_start(path@.take(i as int)) == name_start(path@),
        decreases i,
    {
        assert(path@.take(i as int).drop_last() =~= path@.take(i - 1));
        i = i - 1;
    }
    proof {
        lemma_name_start_bounds(path@);
        if i > 0 {
            assert(path@.take(i as int).last() == '/');
        }
    }
    if i == n {
        None
    } else {
        Some(String::from_str(path.substring_char(i, n)))
    }
}

/// A dump file in an in-memory drop directory; `locked` says that a writer
/// holds its lock.
pub struct DumpFile {
    pub name: String,
    pub content: Vec<u8>,
    pub locked: bool,
}

pub struct DumpFileView {
    pub name: Seq<char>,
    pub content: Seq<u8>,
    pub locked: bool,
}

impl View for DumpFile {
    type V = DumpFileView;

    open spec fn view(&self) -> DumpFileView {
        DumpFileView { name: self.name@, content: self.content@, locked: self.locked }
    }
}

/// An object put to the store: its key and its bytes.
pub struct Object {
    pub key: String,
    pub content: Vec<u8>,
}

pub struct ObjectView {
    pub key: Seq<char>,
    pub content: Seq<u8>,
}

impl View for Object {
    type V = ObjectView;

    open spec fn view(&self) -> ObjectView {
        ObjectView { key: self.key@, content: self.content@ }
    }
}

/// An in-memory store: every successful upload in order, and the keys whose
/// uploads fail.
pub struct Store {
    pub uploads: Vec<Object>,
    pub failing: Vec<String>,
}

pub open spec fn files_view(d: Seq<DumpFile>) -> Seq<DumpFileView> {
    d.map_values(|f: DumpFile| f@)
}

pub open spec fn objects_view(d: Seq<Object>) -> Seq<ObjectView> {
    d.map_values(|o: Object| o@)
}

pub open spec fn keys_view(d: Seq<String>) -> Seq<Seq<char>> {
    d.map_values(|k: String| k@)
}

impl Store {
    pub open spec fn failing_keys(&self) -> Seq<Seq<char>> {
        keys_view(self.failing@)
    }

    pub fn new(failing: Vec<String>) -> (r: Store)
        ensures
            r.uploads@.len() == 0,
            r.failing@ == failing@,
    {
        Store { uploads: Vec::new(), failing }
    }

    /// Puts `content` under `key`; fails when `key` is one of the failing
    /// keys, and then stores nothing.
    pub fn put(&mut self, key: &String, content: &Vec<u8>) -> (ok: bool)
        ensures
            ok == !old(self).failing_keys().contains(key@),
            final(self).failing@ == old(self).failing@,
            objects_view(final(self).uploads@) == if ok {
                objects_view(old(self).uploads@).push(ObjectView { key: key@, content: content@ })
            } else {
                objects_view(old(self).uploads@)
            },
    {
        let mut i: usize = 0;
        while i < self.failing.len()
            invariant
                0 <= i <= self.failing@.len(),
                forall|j: int| 0 <= j < i ==> self.failing@[j]@ != key@,
            decreases self.failing@.len() - i,
        {
            if self.failing[i] == *key {
                assert(self.failing_keys()[i as int] == key@);
                return false;
            }
            i = i + 1;
        }
        assert(!self.failing_keys().contains(key@)) by {
            if self.failing_keys().contains(key@) {
                let j = choose|j: int| 0 <= j < self.failing_keys().len() && self.failing_keys()[j] == key@;
                assert(self.failing@[j]@ == key@);
            }
        }
        let ghost before = objects_view(self.uploads@);
        self.uploads.push(Object { key: key.clone(), content: content.clone() });
        assert(objects_view(self.uploads@) =~= before.push(ObjectView { key: key@, content: content@ }));
        true
    }
}

/// How a pass ends for file `f` when uploads under `failing` keys fail.
pub open spec fn outcome_of(f: DumpFileView, failing: Seq<Seq<char>>) -> Outcome {
    if f.locked {
        Outcome::Busy
    } else if failing.contains(f.name) {
        Outcome::UploadFailed
    } else {
        Outcome::Harvested
    }
}

/// The files that a pass leaves in the directory, in their order.
pub open spec fn pass_kept(d: Seq<DumpFileView>, failing: Seq<Seq<char>>) -> Seq<DumpFileView> {
    d.filter(stays(failing))
}

pub open spec fn stays(failing: Seq<Seq<char>>) -> spec_fn(DumpFileView) -> bool {
    |f: DumpFileView| keeps_file(outcome_of(f, failing))
}

pub open spec fn goes_up(failing: Seq<Seq<char>>) -> spec_fn(DumpFileView) -> bool {
    |f: DumpFileView| was_uploaded(outcome_of(f, failing))
}

pub open spec fn object_of(f: DumpFileView) -> ObjectView {
    ObjectView { key: f.name, content: f.content }
}

/// The objects that a pass uploads, in the directory's order: each file that
/// is neither locked nor failing, once, under its name.
pub open spec fn pass_uploads(d: Seq<DumpFileView>, failing: Seq<Seq<char>>) -> Seq<ObjectView> {
    d.filter(goes_up(failing)).map_values(|f: DumpFileView| object_of(f))
}

/// Runs the stage machine for one in-memory file against `store`.
fn handle_file(f: &DumpFile, store: &mut Store) -> (o: Outcome)
    ensures
        o == outcome_of(f@, old(store).failing_keys()),
        final(store).failing@ == old(store).failing@,
        objects_view(final(store).uploads@) == if was_uploaded(o) {
            objects_view(old(store).uploads@).push(ObjectView { key: f.name@, content: f.content@ })
        } else {
            objects_view(old(store).uploads@)
        },
{
    let s = advance(Stage::Lock, !f.locked);
    if s != Stage::Read {
        return Outcome::Busy;
    }
    let s = advance(s, true);
    let ok = store.put(&f.name, &f.content);
    let s = advance(s, ok);
    if s != Stage::Delete {
        return Outcome::UploadFailed;
    }
    match advance(s, true) {
        Stage::Done(o) => o,
        _ => Outcome::Harvested,
    }
}

/// One harvesting pass over the in-memory directory `dir`: every file is
/// offered once, in order, whatever happened to the others. Locked files are
/// neither read nor uploaded and stay; files whose upload fails stay; every
/// other file is uploaded once under its name and removed.
pub fn harvest_pass(dir: &mut Vec<DumpFile>, store: &mut Store)
    ensures
        files_view(final(dir)@) == pass_kept(files_view(old(dir)@), old(store).failing_keys()),
        objects_view(final(store).uploads@) == objects_view(old(store).uploads@) + pass_uploads(
            files_view(old(dir)@),
            old(store).failing_keys(),
        ),
        final(store).failing@ == old(store).failing@,
{
    let ghost d0 = files_view(dir@);
    let ghost u0 = objects_view(store.uploads@);
    let ghost failing = store.failing_keys();
    let ghost keep = stays(failing);
    let ghost up = goes_up(failing);
    let ghost obj = |f: DumpFileView| object_of(f);
    let mut kept: Vec<DumpFile> = Vec::new();
    let mut rest: Vec<DumpFile> = Vec::new();
    std::mem::swap(dir, &mut rest);
    assert(files_view(rest@) == d0);
    let mut i: usize = 0;
    let n = rest.len();
    while rest.len() > 0
        invariant
            n == d0.len(),
            rest@.len() + i == n,
            files_view(rest@) =~= d0.skip(i as int),
            store.failing@ == old(store).failing@,
            failing == store.failing_keys(),
            keep == stays(failing),
            up == goes_up(failing),
            obj == (|f: DumpFileView| object_of(f)),
            files_view(kept@) == d0.take(i as int).filter(keep),
            objects_view(store.uploads@) == u0 + d0.take(i as int).filter(up).map_values(obj),
        decreases rest@.len(),
    {
        let ghost rv = files_view(rest@);
        let f = rest.remove(0);
        assert(rv[0] == f@);
        assert(files_view(rest@) =~= rv.skip(1));
        let ghost fv = f@;
        let ghost pre = d0.take(i as int);
        let ghost nxt = d0.take(i + 1);
        proof {
            reveal(Seq::filter);
            assert(nxt.drop_last() =~= pre);
            assert(fv == d0[i as int]);
            assert(nxt.last() == fv);
        }
        let ghost kv = files_view(kept@);
        let o = handle_file(&f, store);
        if keeps_file_exec(o) {
            kept.push(f);
            assert(files_view(kept@) =~= kv.push(fv));
        }
        proof {
            reveal(Seq::filter);
            assert(o == outcome_of(fv, failing));
            if keep(fv) {
                assert(nxt.filter(keep) == pre.filter(keep).push(fv));
            } else {
                assert(nxt.filter(keep) == pre.filter(keep));
            }
            if up(fv) {
                assert(nxt.filter(up) == pre.filter(up).push(fv));
            } else {
                assert(nxt.filter(up) == pre.filter(up));
            }
            assert(pre.filter(up).push(fv).map_values(obj) =~= pre.filter(up).map_values(obj).push(obj(fv)));
            if up(fv) {
                assert(u0 + pre.filter(up).map_values(obj).push(obj(fv)) =~= (u0 + pre.filter(up).map_values(obj)).push(obj(fv)));
            }
        }
        i = i + 1;
    }
    assert(d0.take(n as int) =~= d0);
    *dir = kept;
}

fn keeps_file_exec(o: Outcome) -> (r: bool)
    ensures
        r == keeps_file(o),
{
    o != Outcome::Harvested
}

proof fn lemma_filter_all<A>(s: Seq<A>, p: spec_fn(A) -> bool)
    requires
        forall|i: int| 0 <= i < s.len() ==> p(s[i]),
    ensures
        s.filter(p) == s,
    decreases s.len(),
{
    reveal(Seq::filter);
    if s.len() > 0 {
        lemma_filter_all(s.drop_last(), p);
        assert(s.drop_last().push(s.last()) =~= s);
    }
}

/// A file that a writer holds locked stays in the directory, and nothing
/// that a pass uploads comes from a locked file.
pub proof fn lemma_locked_untouched(d: Seq<DumpFileView>, failing: Seq<Seq<char>>, k: int)
    requires
        0 <= k < d.len(),
        d[k].locked,
    ensures
        pass_kept(d, failing).contains(d[k]),
        forall|j: int|
            0 <= j < d.filter(goes_up(failing)).len() ==> !(#[trigger] d.filter(
                goes_up(failing),
            )[j]).locked,
{
    d.lemma_filter_contains(stays(failing), k);
    assert forall|j: int| 0 <= j < d.filter(goes_up(failing)).len() implies !(#[trigger] d.filter(
        goes_up(failing),
    )[j]).locked by {
        d.lemma_filter_pred(goes_up(failing), j);
    }
}

/// A file whose upload fails stays in the directory and is offered again by
/// the next pass; once its upload succeeds, that pass uploads it and removes
/// it.
pub proof fn lemma_failed_upload_retried(
    d: Seq<DumpFileView>,
    failing: Seq<Seq<char>>,
    next_failing: Seq<Seq<char>>,
    k: int,
)
    requires
        0 <= k < d.len(),
        !d[k].locked,
        failing.contains(d[k].name),
        !next_failing.contains(d[k].name),
    ensures
        pass_kept(d, failing).contains(d[k]),
        pass_uploads(pass_kept(d, failing), next_failing).contains(object_of(d[k])),
        !pass_kept(pass_kept(d, failing), next_failing).contains(d[k]),
{
    let kept = pass_kept(d, failing);
    d.lemma_filter_contains(stays(failing), k);
    let m = choose|m: int| 0 <= m < kept.len() && kept[m] == d[k];
    kept.lemma_filter_contains(goes_up(next_failing), m);
    let ups = kept.filter(goes_up(next_failing));
    let i = choose|i: int| 0 <= i < ups.len() && ups[i] == d[k];
    assert(pass_uploads(kept, next_failing)[i] == object_of(d[k]));
    if pass_kept(kept, next_failing).contains(d[k]) {
        let j = choose|j: int|
            0 <= j < pass_kept(kept, next_failing).len() && pass_kept(kept, next_failing)[j] == d[k];
        kept.lemma_filter_pred(stays(next_failing), j);
    }
}

/// An upload that fails affects no other file: when only file `k` fails and
/// no file is locked, the pass uploads every other file, in order, and
/// leaves only file `k` behind.
pub proof fn lemma_failure_isolated(d: Seq<DumpFileView>, failing: Seq<Seq<char>>, k: int)
    requires
        0 <= k < d.len(),
        forall|i: int| 0 <= i < d.len() ==> !(#[trigger] d[i]).locked,
        forall|i: int| 0 <= i < d.len() && i != k ==> !failing.contains((#[trigger] d[i]).name),
        failing.contains(d[k].name),
    ensures
        pass_kept(d, failing) == seq![d[k]],
        pass_uploads(d, failing) == d.remove(k).map_values(|f: DumpFileView| object_of(f)),
{
    let a = d.take(k);
    let b = seq![d[k]];
    let c = d.skip(k + 1);
    assert(d =~= a + b + c);
    assert(d.remove(k) =~= a + c);
    let keep = stays(failing);
    let up = goes_up(failing);
    Seq::filter_distributes_over_add(a + b, c, keep);
    Seq::filter_distributes_over_add(a, b, keep);
    Seq::filter_distributes_over_add(a + b, c, up);
    Seq::filter_distributes_over_add(a, b, up);
    a.lemma_all_neg_filter_empty(keep);
    assert forall|i: int| 0 <= i < c.len() implies !keep(c[i]) by {
        assert(c[i] == d[k + 1 + i]);
    }
    c.lemma_all_neg_filter_empty(keep);
    lemma_filter_all(a, up);
    assert forall|i: int| 0 <= i < c.len() implies up(c[i]) by {
        assert(c[i] == d[k + 1 + i]);
    }
    lemma_filter_all(c, up);
    reveal_with_fuel(Seq::filter, 2);
    assert(b.drop_last() =~= Seq::<DumpFileView>::empty());
    assert(b.filter(keep) == b);
    assert(b.filter(up) =~= Seq::<DumpFileView>::empty());
    assert(pass_kept(d, failing) =~= seq![d[k]]);
    assert(d.filter(up) =~= a + c);
}

} // verus!
