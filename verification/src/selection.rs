//! The selection of one window: an ordered list of files and the index of
//! the one that is shown.

use vstd::prelude::*;

use crate::media::{is_image, is_image_path};

verus! {

/// The files of a window and the index of the active one.
#[derive(Debug)]
pub struct SelectionState {
    files: Vec<String>,
    active: usize,
}

/// What a selection says: the paths in order, and the active index.
pub struct SelectionView {
    pub files: Seq<Seq<char>>,
    pub active: int,
}

/// What a window's observers are told when its active file changes.
#[derive(Debug)]
pub struct ActiveFilePayload {
    pub path: Option<String>,
    pub index: Option<usize>,
    pub total: Option<usize>,
}

/// What a notification says.
pub struct PayloadView {
    pub path: Option<Seq<char>>,
    pub index: Option<usize>,
    pub total: Option<usize>,
}

/// The characters of each string of a list.
pub open spec fn texts(v: Seq<String>) -> Seq<Seq<char>> {
    Seq::new(v.len(), |i: int| v[i]@)
}

/// The test that a path passes to enter a selection.
pub open spec fn supported() -> spec_fn(Seq<char>) -> bool {
    |p: Seq<char>| is_image(p)
}

/// The supported images among `paths`, in their order.
pub open spec fn supported_only(paths: Seq<Seq<char>>) -> Seq<Seq<char>> {
    paths.filter(supported())
}

/// The index that navigating by `delta` leads to: moved by `delta` and
/// held within the list, without wrapping round.
pub open spec fn navigated(active: int, len: int, delta: int) -> int {
    let next = active + delta;
    if next < 0 {
        0
    } else if next > len - 1 {
        len - 1
    } else {
        next
    }
}

/// The index after navigating `times` times by `delta`.
pub open spec fn navigated_repeatedly(active: int, len: int, delta: int, times: nat) -> int
    decreases times,
{
    if times == 0 {
        active
    } else {
        navigated(navigated_repeatedly(active, len, delta, (times - 1) as nat), len, delta)
    }
}

impl SelectionView {
    /// The active index lies within the list.
    pub open spec fn wf(self) -> bool {
        0 <= self.active < self.files.len()
    }

    /// The path of the active file.
    pub open spec fn active_path(self) -> Seq<char> {
        self.files[self.active]
    }

    /// The selection after navigating by `delta`.
    pub open spec fn navigate(self, delta: int) -> SelectionView {
        SelectionView {
            files: self.files,
            active: navigated(self.active, self.files.len() as int, delta),
        }
    }

    /// The selection made from `paths`: the supported ones, the first of
    /// them active. Where none is supported there is no selection.
    pub open spec fn select(paths: Seq<Seq<char>>) -> Option<SelectionView> {
        let files = supported_only(paths);
        if files.len() == 0 {
            None
        } else {
            Some(SelectionView { files, active: 0 })
        }
    }

    /// The notification of the active file: its path, its index and the
    /// number of files.
    pub open spec fn payload(self) -> PayloadView {
        PayloadView {
            path: Some(self.active_path()),
            index: Some(self.active as usize),
            total: Some(self.files.len() as usize),
        }
    }
}

impl PayloadView {
    /// The notification of a window without a selection: no path, no index,
    /// and a total of zero.
    pub open spec fn cleared() -> PayloadView {
        PayloadView { path: None, index: None, total: Some(0) }
    }

    /// The notification in its older form, which carries the path alone.
    pub open spec fn legacy(self) -> PayloadView {
        PayloadView { path: self.path, index: None, total: None }
    }
}

impl View for ActiveFilePayload {
    type V = PayloadView;

    open spec fn view(&self) -> PayloadView {
        PayloadView {
            path: match self.path {
                Some(p) => Some(p@),
                None => None,
            },
            index: self.index,
            total: self.total,
        }
    }
}

impl ActiveFilePayload {
    /// The notification of a window without a selection.
    pub fn cleared() -> (p: ActiveFilePayload)
        ensures
            p@ == PayloadView::cleared(),
    {
        ActiveFilePayload { path: None, index: None, total: Some(0) }
    }

    /// The notification in its older form.
    pub fn legacy(&self) -> (p: ActiveFilePayload)
        ensures
            p@ == self@.legacy(),
    {
        ActiveFilePayload {
            path: match &self.path {
                Some(p) => Some(p.clone()),
                None => None,
            },
            index: None,
            total: None,
        }
    }
}

/// Navigating keeps the active index within the list.
pub proof fn lemma_navigated_in_range(active: int, len: int, delta: int)
    requires
        0 <= active < len,
    ensures
        0 <= navigated(active, len, delta) < len,
{
}

/// Navigating backwards from the first file, or forwards from the last,
/// changes nothing, however often it is repeated.
pub proof fn lemma_navigate_at_boundary(len: int, times: nat)
    requires
        len > 0,
    ensures
        navigated_repeatedly(0, len, -1, times) == 0,
        navigated_repeatedly(len - 1, len, 1, times) == len - 1,
    decreases times,
{
    if times > 0 {
        lemma_navigate_at_boundary(len, (times - 1) as nat);
    }
}

/// However often and by whatever steps a selection is navigated, its active
/// index stays within the list.
pub proof fn lemma_navigated_repeatedly_in_range(active: int, len: int, delta: int, times: nat)
    requires
        0 <= active < len,
    ensures
        0 <= navigated_repeatedly(active, len, delta, times) < len,
    decreases times,
{
    if times > 0 {
        lemma_navigated_repeatedly_in_range(active, len, delta, (times - 1) as nat);
    }
}

/// Every path that filtering keeps is a supported image, and filtering a
/// list of supported images keeps all of it.
pub proof fn lemma_supported_only(paths: Seq<Seq<char>>)
    ensures
        forall|i: int|
            0 <= i < supported_only(paths).len() ==> is_image(#[trigger] supported_only(paths)[i]),
        supported_only(paths).len() <= paths.len(),
        (forall|i: int| 0 <= i < paths.len() ==> is_image(#[trigger] paths[i])) ==> supported_only(
            paths,
        ) == paths,
    decreases paths.len(),
{
    reveal(Seq::filter);
    if paths.len() > 0 {
        let front = paths.drop_last();
        lemma_supported_only(front);
        if forall|i: int| 0 <= i < paths.len() ==> is_image(#[trigger] paths[i]) {
            assert forall|i: int| 0 <= i < front.len() implies is_image(#[trigger] front[i]) by {
                assert(front[i] == paths[i]);
            }
            assert(is_image(paths[paths.len() - 1]));
            assert(front.push(paths.last()) =~= paths);
        }
    }
}

/// Filtering keeps the order of the paths: a list made of two parts is
/// filtered part by part.
pub proof fn lemma_supported_only_order(a: Seq<Seq<char>>, b: Seq<Seq<char>>)
    ensures
        supported_only(a + b) == supported_only(a) + supported_only(b),
{
    Seq::filter_distributes_over_add(a, b, supported());
}

/// Filtering leaves nothing exactly where no path is a supported image.
pub proof fn lemma_supported_only_empty(paths: Seq<Seq<char>>)
    ensures
        supported_only(paths).len() == 0 <==> forall|i: int|
            0 <= i < paths.len() ==> !is_image(#[trigger] paths[i]),
    decreases paths.len(),
{
    reveal(Seq::filter);
    if paths.len() > 0 {
        let front = paths.drop_last();
        lemma_supported_only_empty(front);
        assert(forall|i: int| 0 <= i < front.len() ==> front[i] == paths[i]);
        if supported_only(paths).len() == 0 {
            assert(!is_image(paths.last()));
            assert forall|i: int| 0 <= i < paths.len() implies !is_image(#[trigger] paths[i]) by {
                if i < front.len() {
                    assert(front[i] == paths[i]);
                }
            }
        } else if !is_image(paths.last()) {
            let i = choose|i: int| 0 <= i < front.len() && is_image(#[trigger] front[i]);
            assert(is_image(paths[i]));
        } else {
            assert(is_image(paths[paths.len() - 1]));
        }
    }
}

/// The supported images among `paths`, in their order.
pub fn filter_supported(paths: Vec<String>) -> (kept: Vec<String>)
    ensures
        texts(kept@) == supported_only(texts(paths@)),
{
    let mut kept: Vec<String> = Vec::new();
    let mut i: usize = 0;
    proof {
        reveal(Seq::filter);
        assert(texts(paths@).take(0) =~= Seq::<Seq<char>>::empty());
        assert(texts(kept@) =~= Seq::<Seq<char>>::empty());
    }
    while i < paths.len()
        invariant
            i <= paths@.len(),
            texts(kept@) == supported_only(texts(paths@).take(i as int)),
        decreases paths@.len() - i,
    {
        let ghost before = texts(kept@);
        let ghost all = texts(paths@);
        proof {
            reveal(Seq::filter);
            assert(all.take(i as int + 1).drop_last() =~= all.take(i as int));
            assert(all.take(i as int + 1).last() == paths@[i as int]@);
        }
        if is_image_path(paths[i].as_str()) {
            kept.push(paths[i].clone());
            assert(texts(kept@) =~= before.push(paths@[i as int]@));
        }
        i = i + 1;
    }
    assert(texts(paths@).take(i as int) =~= texts(paths@));
    kept
}

impl View for SelectionState {
    type V = SelectionView;

    closed spec fn view(&self) -> SelectionView {
        SelectionView { files: texts(self.files@), active: self.active as int }
    }
}

impl SelectionState {
    /// The active index lies within the list of files.
    pub open spec fn wf(&self) -> bool {
        self@.wf()
    }

    /// The selection made from `paths`: the supported ones in their order,
    /// the first of them active. Where none is supported there is none.
    pub fn from_paths(paths: Vec<String>) -> (r: Option<SelectionState>)
        ensures
            match r {
                Some(s) => s.wf() && SelectionView::select(texts(paths@)) == Some(s@),
                None => SelectionView::select(texts(paths@)) is None,
            },
    {
        let files = filter_supported(paths);
        if files.len() == 0 {
            None
        } else {
            Some(SelectionState { files, active: 0 })
        }
    }

    /// The number of files.
    pub fn len(&self) -> (n: usize)
        ensures
            n == self@.files.len(),
    {
        self.files.len()
    }

    /// The index of the active file.
    pub fn active(&self) -> (i: usize)
        ensures
            i == self@.active,
    {
        self.active
    }

    /// The files in order.
    pub fn files(&self) -> (f: &Vec<String>)
        ensures
            texts(f@) == self@.files,
    {
        &self.files
    }

    /// A copy of the files in order.
    pub fn to_paths(&self) -> (f: Vec<String>)
        ensures
            texts(f@) == self@.files,
    {
        let mut f: Vec<String> = Vec::new();
        let mut i: usize = 0;
        while i < self.files.len()
            invariant
                i <= self.files@.len(),
                texts(f@) == texts(self.files@).take(i as int),
            decreases self.files@.len() - i,
        {
            let ghost before = texts(f@);
            f.push(self.files[i].clone());
            assert(texts(f@) =~= before.push(self.files@[i as int]@));
            i = i + 1;
            assert(texts(f@) =~= texts(self.files@).take(i as int));
        }
        assert(texts(self.files@).take(i as int) =~= texts(self.files@));
        f
    }

    /// The path of the active file.
    pub fn active_file(&self) -> (p: &String)
        requires
            self.wf(),
        ensures
            p@ == self@.active_path(),
    {
        &self.files[self.active]
    }

    /// Moves the active index by `delta`, holding it within the list, and
    /// says whether it changed.
    pub fn navigate(&mut self, delta: isize) -> (changed: bool)
        requires
            old(self).wf(),
        ensures
            final(self).wf(),
            final(self)@ == old(self)@.navigate(delta as int),
            changed == (final(self)@.active != old(self)@.active),
    {
        let len: i128 = self.files.len() as i128;
        let next: i128 = self.active as i128 + delta as i128;
        let bounded: i128 = if next < 0 {
            0
        } else if next > len - 1 {
            len - 1
        } else {
            next
        };
        let bounded: usize = bounded as usize;
        let changed = bounded != self.active;
        self.active = bounded;
        changed
    }

    /// The notification of the active file.
    pub fn payload(&self) -> (p: ActiveFilePayload)
        requires
            self.wf(),
        ensures
            p@ == self@.payload(),
    {
        ActiveFilePayload {
            path: Some(self.files[self.active].clone()),
            index: Some(self.active),
            total: Some(self.files.len()),
        }
    }
}

} // verus!
