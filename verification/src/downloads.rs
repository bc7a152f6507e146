//! The registry of downloads: what is queued, how far each transfer has
//! come, and which have failed.

use vstd::prelude::*;
use crate::gamebanana::GbModDownload;
use crate::seqs::first_index;
use crate::seqs::first_index_at;
use crate::seqs::first_index_is_first;
use crate::seqs::first_index_none;

verus! {

/// The progress of a finished transfer. Progress counts millionths of the
/// file's size.
pub const FULL_PROGRESS: u32 = 1_000_000;

/// One download: the file it fetches, how far it has come and whether it has
/// failed.
#[derive(Debug, PartialEq, Eq)]
pub struct Download {
    pub failed: bool,
    pub id: u32,
    pub name: String,
    pub progress: u32,
    pub size: u32,
    pub url: String,
}

impl Clone for Download {
    fn clone(&self) -> (out: Self)
        ensures
            out == *self,
    {
        Download {
            failed: self.failed,
            id: self.id,
            name: self.name.clone(),
            progress: self.progress,
            size: self.size,
            url: self.url.clone(),
        }
    }
}

impl From<GbModDownload> for Download {
    fn from(value: GbModDownload) -> (out: Download) {
        Download {
            failed: false,
            id: value.id,
            name: value.file,
            progress: 0,
            size: value.filesize,
            url: value.download_url,
        }
    }
}

impl vstd::std_specs::convert::FromSpecImpl<GbModDownload> for Download {
    open spec fn obeys_from_spec() -> bool {
        true
    }

    open spec fn from_spec(value: GbModDownload) -> Download {
        new_download(value)
    }
}

/// The download of the file `file` as it is queued: named after the file,
/// at no progress and not failed.
pub open spec fn new_download(file: GbModDownload) -> Download {
    Download {
        failed: false,
        id: file.id,
        name: file.file,
        progress: 0,
        size: file.filesize,
        url: file.download_url,
    }
}

/// The place among `tasks` of the download of the file `id` that is under
/// way: the first that has not failed.
pub open spec fn place_of(tasks: Seq<Download>, id: u32) -> Option<int> {
    first_index(tasks, |t: Download| t.id == id && !t.failed)
}

/// Whether `tasks` can be a registry: no file has two downloads under way
/// and no download is past [`FULL_PROGRESS`]. Failed downloads stay in the
/// list, however many a file has.
pub open spec fn is_registry(tasks: Seq<Download>) -> bool {
    &&& forall|i: int, j: int|
        0 <= i < j < tasks.len() && !(#[trigger] tasks[i]).failed && !(#[trigger] tasks[j]).failed
            ==> tasks[i].id != tasks[j].id
    &&& forall|i: int| 0 <= i < tasks.len() ==> (#[trigger] tasks[i]).progress <= FULL_PROGRESS
}

/// Whether a download of the file `id` is under way among `tasks`.
pub open spec fn is_live(tasks: Seq<Download>, id: u32) -> bool {
    place_of(tasks, id) is Some
}

/// The registry `tasks` after `file` was queued. While a download of it is
/// under way nothing is added; otherwise a fresh download goes to the end.
/// Nothing that is held leaves or moves.
pub open spec fn enqueued(tasks: Seq<Download>, file: GbModDownload) -> Seq<Download> {
    if is_live(tasks, file.id) {
        tasks
    } else {
        tasks.push(new_download(file))
    }
}

/// Whether the report that the download of `id` has come to `fraction` is
/// taken: a download of the file is under way, and the report is neither
/// past [`FULL_PROGRESS`] nor behind what was reported before.
pub open spec fn takes_progress(tasks: Seq<Download>, id: u32, fraction: u32) -> bool {
    match place_of(tasks, id) {
        Some(i) => tasks[i].progress <= fraction <= FULL_PROGRESS,
        None => false,
    }
}

/// The download `task` at the progress `fraction`.
pub open spec fn at_progress(task: Download, fraction: u32) -> Download {
    Download {
        failed: task.failed,
        id: task.id,
        name: task.name,
        progress: fraction,
        size: task.size,
        url: task.url,
    }
}

/// The download `task` marked as failed.
pub open spec fn as_failed(task: Download) -> Download {
    Download {
        failed: true,
        id: task.id,
        name: task.name,
        progress: task.progress,
        size: task.size,
        url: task.url,
    }
}

/// The registry `tasks` after the report that the download of `id` has come
/// to `fraction`: a report that is not taken changes nothing.
pub open spec fn progressed(tasks: Seq<Download>, id: u32, fraction: u32) -> Seq<Download> {
    match place_of(tasks, id) {
        Some(i) => if takes_progress(tasks, id, fraction) {
            tasks.update(i, at_progress(tasks[i], fraction))
        } else {
            tasks
        },
        None => tasks,
    }
}

/// The registry `tasks` after the download of `id` that is under way was
/// marked as failed.
pub open spec fn failed(tasks: Seq<Download>, id: u32) -> Seq<Download> {
    match place_of(tasks, id) {
        Some(i) => tasks.update(i, as_failed(tasks[i])),
        None => tasks,
    }
}

/// The registry `tasks` without the download of `id` that is under way.
pub open spec fn cleared(tasks: Seq<Download>, id: u32) -> Seq<Download> {
    match place_of(tasks, id) {
        Some(i) => tasks.remove(i),
        None => tasks,
    }
}

/// The registry `tasks` without the download at `position`.
pub open spec fn cleared_at(tasks: Seq<Download>, position: int) -> Seq<Download> {
    if 0 <= position < tasks.len() {
        tasks.remove(position)
    } else {
        tasks
    }
}

/// Taking a download out of a registry leaves a registry.
proof fn removal_keeps_registry(tasks: Seq<Download>, i: int)
    requires
        is_registry(tasks),
        0 <= i < tasks.len(),
    ensures
        is_registry(tasks.remove(i)),
{
    let kept = tasks.remove(i);
    assert forall|a: int, b: int|
        0 <= a < b < kept.len() && !(#[trigger] kept[a]).failed && !(#[trigger] kept[b]).failed implies kept[a].id
        != kept[b].id by {
        let x = if a < i { a } else { a + 1 };
        let y = if b < i { b } else { b + 1 };
        assert(kept[a] == tasks[x] && kept[b] == tasks[y]);
    }
    assert forall|a: int| 0 <= a < kept.len() implies (#[trigger] kept[a]).progress
        <= FULL_PROGRESS by {
        let x = if a < i { a } else { a + 1 };
        assert(kept[a] == tasks[x]);
    }
}

/// Queuing a file keeps a registry a registry, and the file then has a
/// download under way: the one it had, at its place, or a fresh one at the
/// end, behind everything that was held.
pub proof fn enqueued_is_live(tasks: Seq<Download>, file: GbModDownload)
    requires
        is_registry(tasks),
    ensures
        is_registry(enqueued(tasks, file)),
        is_live(enqueued(tasks, file), file.id),
        place_of(enqueued(tasks, file), file.id) == if is_live(tasks, file.id) {
            place_of(tasks, file.id)
        } else {
            Some(tasks.len() as int)
        },
{
    let wanted = |t: Download| t.id == file.id && !t.failed;
    first_index_is_first(tasks, wanted);
    if !is_live(tasks, file.id) {
        let after = tasks.push(new_download(file));
        assert forall|k: int| 0 <= k < tasks.len() implies !wanted(#[trigger] after[k]) by {
            assert(after[k] == tasks[k]);
        }
        first_index_at(after, wanted, tasks.len() as int);
        assert forall|a: int, b: int|
            0 <= a < b < after.len() && !(#[trigger] after[a]).failed && !(#[trigger] after[b]).failed implies after[a].id
            != after[b].id by {
            assert(after[a] == tasks[a]);
            if b < tasks.len() {
                assert(after[b] == tasks[b]);
            } else {
                assert(!wanted(after[a]));
            }
        }
    }
}

/// Queuing a file twice is as queuing it once: while its download is under
/// way, a second request adds none and finds the same download at the same
/// place.
pub proof fn enqueue_is_idempotent(tasks: Seq<Download>, file: GbModDownload)
    requires
        is_registry(tasks),
    ensures
        is_live(enqueued(tasks, file), file.id),
        enqueued(enqueued(tasks, file), file) == enqueued(tasks, file),
{
    enqueued_is_live(tasks, file);
}

/// Queuing never moves or drops what is held: every download stays at its
/// place, so the places that were announced stay true.
pub proof fn enqueue_keeps_what_is_held(tasks: Seq<Download>, file: GbModDownload, i: int)
    requires
        0 <= i < tasks.len(),
    ensures
        tasks.len() <= enqueued(tasks, file).len() <= tasks.len() + 1,
        enqueued(tasks, file)[i] == tasks[i],
{
}

/// Two files without a download under way, queued one after the other, get
/// their downloads in that order: the first at the old end of the list, the
/// second right behind it.
pub proof fn fresh_downloads_go_last(tasks: Seq<Download>, first: GbModDownload, second: GbModDownload)
    requires
        is_registry(tasks),
        first.id != second.id,
        !is_live(tasks, first.id),
        !is_live(tasks, second.id),
    ensures
        enqueued(enqueued(tasks, first), second) == tasks.push(new_download(first)).push(
            new_download(second),
        ),
        place_of(enqueued(tasks, first), first.id) == Some(tasks.len() as int),
        place_of(enqueued(enqueued(tasks, first), second), second.id) == Some(tasks.len() as int + 1),
{
    let one = enqueued(tasks, first);
    enqueued_is_live(tasks, first);
    let wanted = |t: Download| t.id == second.id && !t.failed;
    first_index_is_first(tasks, wanted);
    assert forall|k: int| 0 <= k < one.len() implies !wanted(#[trigger] one[k]) by {
        if k < tasks.len() {
            assert(one[k] == tasks[k]);
        }
    }
    first_index_none(one, wanted);
    enqueued_is_live(one, second);
}

/// A report of less progress than a download has made leaves the registry
/// as it was.
pub proof fn regression_is_ignored(tasks: Seq<Download>, id: u32, fraction: u32)
    requires
        place_of(tasks, id) matches Some(i) && fraction < tasks[i].progress,
    ensures
        progressed(tasks, id, fraction) == tasks,
{
}

/// The progress of a download never goes back: after any report it is at
/// least what it was.
pub proof fn progress_is_monotonic(tasks: Seq<Download>, id: u32, fraction: u32, i: int)
    requires
        0 <= i < tasks.len(),
    ensures
        progressed(tasks, id, fraction).len() == tasks.len(),
        progressed(tasks, id, fraction)[i].progress >= tasks[i].progress,
        progressed(tasks, id, fraction)[i].id == tasks[i].id,
{
    first_index_is_first(tasks, |t: Download| t.id == id && !t.failed);
}

/// A failed download stays as it is: no report of progress, no mark and no
/// queuing touches it.
pub proof fn failure_is_terminal(
    tasks: Seq<Download>,
    id: u32,
    fraction: u32,
    file: GbModDownload,
    i: int,
)
    requires
        0 <= i < tasks.len(),
        tasks[i].failed,
    ensures
        progressed(tasks, id, fraction)[i] == tasks[i],
        failed(tasks, id)[i] == tasks[i],
        enqueued(tasks, file)[i] == tasks[i],
{
    first_index_is_first(tasks, |t: Download| t.id == id && !t.failed);
}

/// What queuing a file came to.
#[derive(Clone, Debug, PartialEq, Eq)]
pub struct Enqueued {
    /// The place of the file's download in the registry.
    pub position: usize,
    /// The file's download, as the registry holds it.
    pub task: Download,
    /// Whether the download was made by this request, and so has yet to be
    /// announced to those who follow the queue.
    pub fresh: bool,
}

/// The registry of downloads, in the order in which they were queued. No
/// file has two downloads under way in it.
#[derive(Debug)]
pub struct DownloadCoordinator {
    tasks: Vec<Download>,
}

impl View for DownloadCoordinator {
    type V = Seq<Download>;

    closed spec fn view(&self) -> Seq<Download> {
        self.tasks@
    }
}

impl Clone for DownloadCoordinator {
    fn clone(&self) -> (out: Self)
        ensures
            out@ == self@,
    {
        proof {
            use_type_invariant(self);
        }
        let mut tasks: Vec<Download> = Vec::new();
        for i in 0..self.tasks.len()
            invariant
                tasks@ == self.tasks@.take(i as int),
        {
            tasks.push(self.tasks[i].clone());
            assert(self.tasks@.take(i + 1) =~= self.tasks@.take(i as int).push(self.tasks@[i as int]));
        }
        assert(self.tasks@.take(self.tasks@.len() as int) =~= self.tasks@);
        DownloadCoordinator { tasks }
    }
}

impl DownloadCoordinator {
    #[verifier::type_invariant]
    spec fn valid(&self) -> bool {
        is_registry(self.tasks@)
    }

    /// An empty registry.
    pub fn new() -> (out: Self)
        ensures
            out@ == Seq::<Download>::empty(),
    {
        DownloadCoordinator { tasks: Vec::new() }
    }

    /// The number of downloads, failed ones included.
    pub fn len(&self) -> (n: usize)
        ensures
            n == self@.len(),
            is_registry(self@),
    {
        proof {
            use_type_invariant(self);
        }
        self.tasks.len()
    }

    /// The download at `position`, counted in the order of queuing.
    pub fn task_at(&self, position: usize) -> (task: &Download)
        requires
            position < self@.len(),
        ensures
            *task == self@[position as int],
    {
        &self.tasks[position]
    }

    /// The place of the download of the file `id` that is under way.
    pub fn find(&self, id: u32) -> (place: Option<usize>)
        ensures
            match place {
                Some(i) => place_of(self@, id) == Some(i as int) && i < self@.len(),
                None => place_of(self@, id) is None,
            },
            is_registry(self@),
    {
        proof {
            use_type_invariant(self);
        }
        let ghost wanted = |t: Download| t.id == id && !t.failed;
        let mut i: usize = 0;
        while i < self.tasks.len()
            invariant
                i <= self.tasks@.len(),
                is_registry(self@),
                wanted == |t: Download| t.id == id && !t.failed,
                forall|k: int| 0 <= k < i ==> !wanted(#[trigger] self.tasks@[k]),
            decreases self.tasks@.len() - i,
        {
            if self.tasks[i].id == id && !self.tasks[i].failed {
                proof {
                    first_index_at(self@, wanted, i as int);
                }
                return Some(i);
            }
            i += 1;
        }
        proof {
            first_index_none(self@, wanted);
        }
        None
    }

    /// Queues `file`. While a download of it is under way none is added and
    /// that one is handed back. Otherwise a fresh download goes to the end
    /// of the list, also where an earlier download of the file has failed.
    pub fn enqueue(&mut self, file: GbModDownload) -> (out: Enqueued)
        ensures
            final(self)@ == enqueued(old(self)@, file),
            place_of(final(self)@, file.id) == Some(out.position as int),
            out.position < final(self)@.len(),
            out.task == final(self)@[out.position as int],
            out.fresh == !is_live(old(self)@, file.id),
            out.fresh ==> out.position == old(self)@.len() && out.task == new_download(file),
    {
        let ghost before = self@;
        proof {
            use_type_invariant(&*self);
            enqueued_is_live(before, file);
        }
        let found = self.find(file.id);
        let mut taken = DownloadCoordinator::new();
        std::mem::swap(self, &mut taken);
        let mut tasks = taken.tasks;
        let out = match found {
            Some(i) => Enqueued { position: i, task: tasks[i].clone(), fresh: false },
            None => {
                let task = Download::from(file);
                let copy = task.clone();
                tasks.push(task);
                Enqueued { position: tasks.len() - 1, task: copy, fresh: true }
            },
        };
        assert(tasks@ == enqueued(before, file));
        *self = DownloadCoordinator { tasks };
        out
    }

    /// Takes the report that the download of `id` has come to `fraction`
    /// millionths, and tells whether it was taken. A report that goes back
    /// behind an earlier one or is past [`FULL_PROGRESS`] is left aside, and
    /// so is one for a file that has no download under way.
    pub fn report_progress(&mut self, id: u32, fraction: u32) -> (taken: bool)
        ensures
            final(self)@ == progressed(old(self)@, id, fraction),
            taken == takes_progress(old(self)@, id, fraction),
    {
        let ghost before = self@;
        proof {
            use_type_invariant(&*self);
            first_index_is_first(before, |t: Download| t.id == id && !t.failed);
        }
        let i = match self.find(id) {
            Some(i) => i,
            None => {
                return false;
            },
        };
        let current = &self.tasks[i];
        if fraction < current.progress || fraction > FULL_PROGRESS {
            return false;
        }
        let mut emptied = DownloadCoordinator::new();
        std::mem::swap(self, &mut emptied);
        let mut tasks = emptied.tasks;
        let mut task = tasks.remove(i);
        task.progress = fraction;
        tasks.insert(i, task);
        proof {
            let after = before.update(i as int, at_progress(before[i as int], fraction));
            assert(tasks@ =~= after);
        }
        *self = DownloadCoordinator { tasks };
        true
    }

    /// Marks the download of `id` that is under way as failed, and tells
    /// whether there was one. Nothing takes the mark off: a failed download
    /// stays in the list as it is until it is cleared, and queuing its file
    /// again makes a new download.
    pub fn mark_failed(&mut self, id: u32) -> (marked: bool)
        ensures
            final(self)@ == failed(old(self)@, id),
            marked == is_live(old(self)@, id),
            !is_live(final(self)@, id),
    {
        let ghost before = self@;
        let ghost wanted = |t: Download| t.id == id && !t.failed;
        proof {
            use_type_invariant(&*self);
            first_index_is_first(before, wanted);
        }
        let i = match self.find(id) {
            Some(i) => i,
            None => {
                return false;
            },
        };
        let mut emptied = DownloadCoordinator::new();
        std::mem::swap(self, &mut emptied);
        let mut tasks = emptied.tasks;
        let mut task = tasks.remove(i);
        task.failed = true;
        tasks.insert(i, task);
        proof {
            let after = before.update(i as int, as_failed(before[i as int]));
            assert(tasks@ =~= after);
            assert forall|k: int| 0 <= k < after.len() implies !wanted(#[trigger] after[k]) by {
                if k != i {
                    assert(after[k] == before[k]);
                }
            }
            first_index_none(after, wanted);
        }
        *self = DownloadCoordinator { tasks };
        true
    }

    /// Takes the download of `id` that is under way out of the registry, as
    /// when its transfer is done, and hands it back. The others keep their
    /// order.
    pub fn clear(&mut self, id: u32) -> (gone: Option<Download>)
        ensures
            final(self)@ == cleared(old(self)@, id),
            gone == match place_of(old(self)@, id) {
                Some(i) => Some(old(self)@[i]),
                None => None,
            },
    {
        let ghost before = self@;
        proof {
            use_type_invariant(&*self);
        }
        let i = match self.find(id) {
            Some(i) => i,
            None => {
                return None;
            },
        };
        let mut emptied = DownloadCoordinator::new();
        std::mem::swap(self, &mut emptied);
        let mut tasks = emptied.tasks;
        let task = tasks.remove(i);
        proof {
            removal_keeps_registry(before, i as int);
        }
        *self = DownloadCoordinator { tasks };
        Some(task)
    }

    /// Takes the download at `position` out of the registry, as when the
    /// user clears an entry of the list, failed or not, and hands it back.
    /// The others keep their order; there is nothing to clear past the end.
    pub fn clear_at(&mut self, position: usize) -> (gone: Option<Download>)
        ensures
            final(self)@ == cleared_at(old(self)@, position as int),
            gone == if position < old(self)@.len() {
                Some(old(self)@[position as int])
            } else {
                None
            },
    {
        let ghost before = self@;
        proof {
            use_type_invariant(&*self);
        }
        if position >= self.tasks.len() {
            return None;
        }
        let mut emptied = DownloadCoordinator::new();
        std::mem::swap(self, &mut emptied);
        let mut tasks = emptied.tasks;
        let task = tasks.remove(position);
        proof {
            removal_keeps_registry(before, position as int);
        }
        *self = DownloadCoordinator { tasks };
        Some(task)
    }
}

} // verus!
