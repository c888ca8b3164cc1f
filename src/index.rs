use vstd::prelude::*;
use crate::extract::{Event, FileReport, Walker, report_of, walk};
use crate::profile::LanguageProfile;

verus! {

/// Why a file could not be indexed.
#[derive(Clone, Copy, Debug, PartialEq, Eq, Structural)]
pub enum IndexError {
    /// No profile is known for the file's language.
    ProfileMissing,
}

/// Walks the events of one file under `p` and assembles its report.
pub fn index_with(p: &LanguageProfile, file: String, events: Vec<Event>) -> (r: FileReport)
    ensures
        r@ == report_of(*p, file@, events@),
{
    let ghost all = events@;
    let n: usize = events.len();
    let mut events = events;
    let mut rev: Vec<Event> = Vec::new();
    while events.len() > 0
        invariant
            n == all.len(),
            events@ == all.take(n - rev@.len()),
            rev@.len() <= n,
            forall|k: int| 0 <= k < rev@.len() ==> rev@[k] == all[n - 1 - k],
        decreases events.len(),
    {
        let e = events.pop().unwrap();
        rev.push(e);
        assert(events@ =~= all.take(n - rev@.len()));
    }
    let ghost full = rev@;
    let mut w = Walker::new();
    let mut k: usize = 0;
    assert(all.take(0) =~= Seq::<Event>::empty());
    while k < n
        invariant
            n == all.len(),
            full.len() == n,
            forall|j: int| 0 <= j < n ==> full[j] == all[n - 1 - j],
            k <= n,
            rev@ == full.take(n - k),
            w.wf(),
            w@ == walk(*p, all.take(k as int)),
        decreases n - k,
    {
        let e = rev.pop().unwrap();
        assert(e == all[k as int]);
        assert(all.take(k + 1).drop_last() =~= all.take(k as int));
        w.step(p, e);
        assert(rev@ =~= full.take(n - (k + 1)));
        k = k + 1;
    }
    assert(all.take(n as int) =~= all);
    w.into_report(file)
}

/// Indexing is deterministic: two runs on the same profile, file and events give the
/// same definitions and references.
pub proof fn lemma_index_deterministic(
    p: LanguageProfile,
    file: String,
    events: Seq<Event>,
    first: FileReport,
    second: FileReport,
)
    requires
        first@ == report_of(p, file@, events),
        second@ == report_of(p, file@, events),
    ensures
        first@ == second@,
{
}

/// The first profile for `language`.
pub open spec fn is_first_profile(profiles: Seq<LanguageProfile>, language: Seq<char>, i: int) -> bool {
    &&& 0 <= i < profiles.len()
    &&& profiles[i].language@ == language
    &&& forall|j: int| 0 <= j < i ==> profiles[j].language@ != language
}

pub open spec fn has_profile(profiles: Seq<LanguageProfile>, language: Seq<char>) -> bool {
    exists|i: int| 0 <= i < profiles.len() && profiles[i].language@ == language
}

/// Indexes one file written in `language`; fails the whole file when no profile is known for it.
pub fn index_file(profiles: &Vec<LanguageProfile>, language: &String, file: String, events: Vec<Event>) -> (r:
    Result<FileReport, IndexError>)
    ensures
        r is Err <==> !has_profile(profiles@, language@),
        r is Err ==> r == Err::<FileReport, IndexError>(IndexError::ProfileMissing),
        r matches Ok(rep) ==> exists|i: int|
            is_first_profile(profiles@, language@, i) && rep@ == report_of(profiles@[i], file@, events@),
{
    let mut i: usize = 0;
    while i < profiles.len()
        invariant
            i <= profiles@.len(),
            forall|j: int| 0 <= j < i ==> profiles@[j].language@ != language@,
        decreases profiles.len() - i,
    {
        if profiles[i].language == *language {
            let rep = index_with(&profiles[i], file, events);
            assert(is_first_profile(profiles@, language@, i as int));
            return Ok(rep);
        }
        i = i + 1;
    }
    Err(IndexError::ProfileMissing)
}

} // verus!
