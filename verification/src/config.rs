//! Where the settings are looked for: the locations that earlier versions
//! of the program used, the one of them that a first run takes its
//! settings from, and the variable that stands in for the file picker.

use vstd::prelude::*;
use vstd::string::*;

verus! {

/// A place where earlier versions kept their settings file: the file of
/// the usual name under `root`, or under `folder` within `root`.
#[derive(Debug)]
pub struct ConfigCandidate {
    pub root: String,
    pub folder: Option<String>,
}

/// What a candidate says.
pub struct CandidateView {
    pub root: Seq<char>,
    pub folder: Option<Seq<char>>,
}

/// Where the files of a window come from when the user asks to open some.
#[derive(Debug)]
pub enum PickSource {
    /// The native file picker.
    Dialog,
    /// Nowhere: the picker is skipped and nothing is selected.
    Skip,
    /// This path, in place of the picker.
    Literal(String),
}

/// What a `PickSource` says.
pub enum PickSourceView {
    Dialog,
    Skip,
    Literal(Seq<char>),
}

/// The name under which earlier versions registered the program.
pub open spec fn legacy_app_name() -> Seq<char> {
    "Always On Top"@
}

/// The identifier under which earlier versions registered the program.
pub open spec fn legacy_identifier() -> Seq<char> {
    "com.example.always-on-top"@
}

/// The earlier locations of the settings file, in the order in which they
/// are tried: the configuration directory of the program under its earlier
/// name, where there is one; then, within the user's configuration
/// directory, where there is one, the folder of the earlier identifier and
/// the folder of the earlier name.
pub open spec fn legacy_candidates(
    project_dir: Option<Seq<char>>,
    base_dir: Option<Seq<char>>,
) -> Seq<CandidateView> {
    let first = match project_dir {
        Some(p) => seq![CandidateView { root: p, folder: None }],
        None => Seq::empty(),
    };
    let rest = match base_dir {
        Some(b) => seq![
            CandidateView { root: b, folder: Some(legacy_identifier()) },
            CandidateView { root: b, folder: Some(legacy_app_name()) },
        ],
        None => Seq::empty(),
    };
    first + rest
}

/// The views of a list of candidates.
pub open spec fn candidate_views(v: Seq<ConfigCandidate>) -> Seq<CandidateView> {
    Seq::new(v.len(), |i: int| v[i]@)
}

/// The least index at which `flags` holds `true`.
pub open spec fn first_set(flags: Seq<bool>) -> Option<int>
    decreases flags.len(),
{
    if flags.len() == 0 {
        None
    } else {
        match first_set(flags.drop_last()) {
            Some(i) => Some(i),
            None => if flags.last() {
                Some(flags.len() - 1)
            } else {
                None
            },
        }
    }
}

/// The candidate that a first run copies its settings from: the first that
/// exists, and none where the settings file is already there.
pub open spec fn migration_choice(dest_exists: bool, candidate_exists: Seq<bool>) -> Option<int> {
    if dest_exists {
        None
    } else {
        first_set(candidate_exists)
    }
}

/// Where the files come from, given the two variables that can stand in
/// for the picker. The first variable counts where it is set, else the
/// second; a variable set to the empty text skips the picker.
pub open spec fn pick_source(
    primary: Option<Seq<char>>,
    secondary: Option<Seq<char>>,
) -> PickSourceView {
    let chosen = match primary {
        Some(p) => Some(p),
        None => secondary,
    };
    match chosen {
        Some(p) => if p.len() == 0 {
            PickSourceView::Skip
        } else {
            PickSourceView::Literal(p)
        },
        None => PickSourceView::Dialog,
    }
}

impl View for ConfigCandidate {
    type V = CandidateView;

    open spec fn view(&self) -> CandidateView {
        CandidateView {
            root: self.root@,
            folder: match self.folder {
                Some(f) => Some(f@),
                None => None,
            },
        }
    }
}

impl View for PickSource {
    type V = PickSourceView;

    open spec fn view(&self) -> PickSourceView {
        match self {
            PickSource::Dialog => PickSourceView::Dialog,
            PickSource::Skip => PickSourceView::Skip,
            PickSource::Literal(p) => PickSourceView::Literal(p@),
        }
    }
}

/// What `first_set` returns is the least index of a `true`; where it
/// returns nothing, there is none.
pub proof fn lemma_first_set(flags: Seq<bool>)
    ensures
        match first_set(flags) {
            Some(i) => 0 <= i < flags.len() && flags[i] && forall|j: int|
                0 <= j < i ==> !#[trigger] flags[j],
            None => forall|j: int| 0 <= j < flags.len() ==> !#[trigger] flags[j],
        },
    decreases flags.len(),
{
    if flags.len() > 0 {
        let front = flags.drop_last();
        lemma_first_set(front);
        assert(forall|j: int| 0 <= j < front.len() ==> front[j] == flags[j]);
    }
}

/// The name of the settings file.
pub fn settings_file_name() -> (name: &'static str)
    ensures
        name@ == "settings.json"@,
{
    "settings.json"
}

/// The name under which earlier versions registered the program.
pub fn legacy_app_name_str() -> (name: &'static str)
    ensures
        name@ == legacy_app_name(),
{
    "Always On Top"
}

/// The earlier locations of the settings file, in the order in which they
/// are tried. `project_dir` is the configuration directory of the program
/// under its earlier name, `base_dir` the user's configuration directory,
/// each where the system has one.
pub fn legacy_settings_candidates(project_dir: Option<String>, base_dir: Option<String>) -> (v: Vec<
    ConfigCandidate,
>)
    ensures
        candidate_views(v@) == legacy_candidates(
            match project_dir {
                Some(p) => Some(p@),
                None => None,
            },
            match base_dir {
                Some(b) => Some(b@),
                None => None,
            },
        ),
{
    let mut v: Vec<ConfigCandidate> = Vec::new();
    match project_dir {
        Some(p) => {
            v.push(ConfigCandidate { root: p, folder: None });
        },
        None => {},
    }
    match base_dir {
        Some(b) => {
            v.push(
                ConfigCandidate {
                    root: b.clone(),
                    folder: Some(String::from_str("com.example.always-on-top")),
                },
            );
            v.push(ConfigCandidate { root: b, folder: Some(String::from_str("Always On Top")) });
        },
        None => {},
    }
    assert(candidate_views(v@) =~= legacy_candidates(
        match project_dir {
            Some(p) => Some(p@),
            None => None,
        },
        match base_dir {
            Some(b) => Some(b@),
            None => None,
        },
    ));
    v
}

/// The index of the candidate that a first run copies its settings from.
/// `candidate_exists` says of each candidate, in order, whether its file
/// exists.
pub fn migration_source(dest_exists: bool, candidate_exists: &Vec<bool>) -> (r: Option<usize>)
    ensures
        match r {
            Some(i) => migration_choice(dest_exists, candidate_exists@) == Some(i as int),
            None => migration_choice(dest_exists, candidate_exists@) is None,
        },
{
    if dest_exists {
        return None;
    }
    let mut i: usize = 0;
    while i < candidate_exists.len()
        invariant
            !dest_exists,
            i <= candidate_exists@.len(),
            forall|j: int| 0 <= j < i ==> !#[trigger] candidate_exists@[j],
        decreases candidate_exists@.len() - i,
    {
        if candidate_exists[i] {
            proof {
                lemma_first_set(candidate_exists@);
            }
            return Some(i);
        }
        i = i + 1;
    }
    proof {
        lemma_first_set(candidate_exists@);
    }
    None
}

/// Where the files come from. `primary` and `secondary` are the values of
/// the two variables that can stand in for the picker, each where it is
/// set.
pub fn picker_override(primary: Option<String>, secondary: Option<String>) -> (r: PickSource)
    ensures
        r@ == pick_source(
            match primary {
                Some(p) => Some(p@),
                None => None,
            },
            match secondary {
                Some(p) => Some(p@),
                None => None,
            },
        ),
{
    let chosen = match primary {
        Some(p) => Some(p),
        None => secondary,
    };
    match chosen {
        Some(p) => {
            if p.as_str().unicode_len() == 0 {
                PickSource::Skip
            } else {
                PickSource::Literal(p)
            }
        },
        None => PickSource::Dialog,
    }
}

} // verus!
