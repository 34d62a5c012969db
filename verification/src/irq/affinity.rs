//! Moving interrupts to the target CPUs, and back to where they were.
//!
//! Every interrupt of the host has a directory under `/proc/irq`. While a guest runs, the
//! affinity list in it names the target CPUs; what it named before is kept in the state
//! directory of the container, as a JSON object.
use vstd::prelude::*;

use std::collections::HashMap;
use vstd::std_specs::iter::IteratorSpec;

use crate::actions::{join_path, path_in, FileText, FileWrite};
use crate::decimal::{digits, law_parse_inverts_print, number, parse_u32, print_u64};
use crate::irq::{cpulist_text, print_cpulist};
use crate::text::{kept_text, trim, trimmed};

verus! {

broadcast use {vstd::string::group_string_axioms, vstd::std_specs::hash::group_hash_axioms};

/// What the affinity list of an interrupt looks like.
#[derive(Debug)]
pub enum Affinity {
    /// There is no such file.
    Missing,
    /// The file cannot be read.
    Unreadable,
    /// The file holds this text.
    Text(String),
}

/// An error of `serde_json`.
#[verifier::external_type_specification]
#[verifier::external_body]
pub struct ExJsonError(serde_json::Error);

/// The affinities in `m`, as texts.
pub open spec fn affinities(m: Map<u32, String>) -> Map<u32, Seq<char>> {
    m.map_values(|s: String| s@)
}

/// The affinity list of the interrupt whose directory is `name`.
pub open spec fn affinity_path(name: Seq<char>) -> Seq<char> {
    "/proc/irq/"@ + name + "/smp_affinity_list"@
}

/// What is known of the affinities after the directory `name` was visited.
pub open spec fn saved_after_visit(
    saved: Map<u32, Seq<char>>,
    name: Seq<char>,
    affinity: Affinity,
) -> Map<u32, Seq<char>> {
    match (number(name, u32::MAX as nat), affinity) {
        (Ok(irq), Affinity::Text(text)) => saved.insert(irq as u32, trimmed(text@)),
        _ => saved,
    }
}

/// Whether the interrupt of the directory `name` is moved.
pub open spec fn is_moved(name: Seq<char>, affinity: Affinity) -> bool {
    number(name, u32::MAX as nat) is Ok && !(affinity is Missing)
}

/// The interrupts of the host on their way to the target CPUs.
#[derive(Debug)]
pub struct IrqSteering {
    /// CPU list of the target CPUs.
    pub target: String,
    /// The affinities that the interrupts had.
    pub saved: HashMap<u32, String>,
}

impl IrqSteering {
    /// Starts to move interrupts to `steer_cpus`. There is nothing to do without a target CPU.
    pub fn begin(steer_cpus: &[usize]) -> (r: Option<Self>)
        ensures
            match r {
                Some(steering) => steer_cpus@.len() > 0 && steering.target@ == cpulist_text(
                    steer_cpus@,
                ) && affinities(steering.saved@) == Map::<u32, Seq<char>>::empty(),
                None => steer_cpus@.len() == 0,
            },
    {
        if steer_cpus.len() == 0 {
            return None;
        }
        let r = IrqSteering { target: print_cpulist(steer_cpus), saved: HashMap::new() };
        assert(affinities(r.saved@) =~= Map::<u32, Seq<char>>::empty());
        Some(r)
    }

    /// Visits the directory `name`. Where it is that of an interrupt with an affinity list,
    /// what the list named is saved, and the list is to be written anew.
    pub fn visit(&mut self, name: &str, affinity: &Affinity) -> (r: Option<FileWrite>)
        ensures
            final(self).target@ == old(self).target@,
            affinities(final(self).saved@) == saved_after_visit(
                affinities(old(self).saved@),
                name@,
                *affinity,
            ),
            match r {
                Some(w) => is_moved(name@, *affinity) && w@ == (FileText {
                    path: affinity_path(name@),
                    content: old(self).target@,
                }),
                None => !is_moved(name@, *affinity),
            },
    {
        let irq: u32 = match parse_u32(name) {
            Ok(n) => n,
            Err(_) => return None,
        };
        match affinity {
            Affinity::Missing => return None,
            Affinity::Unreadable => {},
            Affinity::Text(text) => {
                let ghost before = self.saved@;
                self.saved.insert(irq, trim(text.as_str()).to_owned());
                assert(affinities(self.saved@) =~= affinities(before).insert(
                    irq,
                    trimmed(text@),
                ));
            },
        }
        Some(
            FileWrite {
                path: "/proc/irq/".to_owned().concat(name).concat("/smp_affinity_list"),
                content: self.target.clone(),
            },
        )
    }
}

// ---------------------------------------------------------------------------
// The saved state
// ---------------------------------------------------------------------------

/// The affinities in the JSON document `text`: those that `serde_json::from_str` reads from
/// it into a map from `u32` to `String`, or the error that it returns.
pub uninterp spec fn affinities_in(text: Seq<char>) -> Result<
    Map<u32, Seq<char>>,
    serde_json::Error,
>;

/// What is said of an error: what its `Display` shows.
pub uninterp spec fn error_text(e: serde_json::Error) -> Seq<char>;

/// Reads the affinities in `text`.
///
/// `serde_json::from_str`, for a `HashMap<u32, String>`: an object whose keys are decimal
/// numbers and whose values are strings. What it reads depends on the text alone.
#[verifier::external_body]
fn from_json(text: &str) -> (r: Result<HashMap<u32, String>, serde_json::Error>)
    ensures
        match r {
            Ok(m) => affinities_in(text@) is Ok && affinities_in(text@)->Ok_0 == affinities(m@),
            Err(e) => affinities_in(text@) is Err && affinities_in(text@)->Err_0 == e,
        },
{
    serde_json::from_str(text)
}

/// What is said of an error.
///
/// `to_string` of `serde_json::Error`, by its `Display`: it depends on the error alone.
#[verifier::external_body]
fn describe(e: &serde_json::Error) -> (r: String)
    ensures
        r@ == error_text(*e),
{
    e.to_string()
}

/// Writes the affinities in `saved`.
///
/// `serde_json::to_string_pretty`, for a `HashMap<u32, String>`: the order of the entries is
/// that of the map, and is not stated. It fails only on keys that are not strings or numbers,
/// and so not here; and `serde_json::from_str` reads the same entries back from the text.
#[verifier::external_body]
fn to_json(saved: &HashMap<u32, String>) -> (r: Result<String, serde_json::Error>)
    ensures
        r is Ok,
        affinities_in(r->Ok_0@) is Ok,
        affinities_in(r->Ok_0@)->Ok_0 == affinities(saved@),
{
    serde_json::to_string_pretty(saved)
}

/// The saved state is not what was written there.
#[derive(Debug)]
pub struct MalformedState {
    /// What is wrong with it.
    pub detail: String,
}

/// The text that keeps the affinities in `saved`.
pub fn save_affinities(saved: &HashMap<u32, String>) -> (r: Option<String>)
    ensures
        r is Some,
        affinities_in(r->Some_0@) is Ok,
        affinities_in(r->Some_0@)->Ok_0 == affinities(saved@),
{
    match to_json(saved) {
        Ok(text) => Some(text),
        Err(_) => None,
    }
}

/// The affinities that are kept in `text`.
pub fn load_affinities(text: &str) -> (r: Result<HashMap<u32, String>, MalformedState>)
    ensures
        match r {
            Ok(saved) => affinities_in(text@) is Ok && affinities_in(text@)->Ok_0 == affinities(
                saved@,
            ),
            Err(fault) => affinities_in(text@) is Err && fault.detail@ == error_text(
                affinities_in(text@)->Err_0,
            ),
        },
{
    match from_json(text) {
        Ok(saved) => Ok(saved),
        Err(e) => Err(MalformedState { detail: describe(&e) }),
    }
}

// ---------------------------------------------------------------------------
// All interrupts
// ---------------------------------------------------------------------------

/// The directories under `/proc/irq`, as texts: their names and their affinity lists.
pub open spec fn directories(entries: Seq<(String, Affinity)>) -> Seq<(Seq<char>, Affinity)> {
    entries.map_values(|e: (String, Affinity)| (e.0@, e.1))
}

/// What is known of the affinities after all these directories were visited.
pub open spec fn saved_after(entries: Seq<(Seq<char>, Affinity)>) -> Map<u32, Seq<char>>
    decreases entries.len(),
{
    if entries.len() == 0 {
        Map::empty()
    } else {
        saved_after_visit(
            saved_after(entries.drop_last()),
            entries.last().0,
            entries.last().1,
        )
    }
}

/// The writes that move the interrupts of these directories: one for each that can be moved.
pub open spec fn steering_writes(
    entries: Seq<(Seq<char>, Affinity)>,
    target: Seq<char>,
) -> Seq<FileText>
    decreases entries.len(),
{
    if entries.len() == 0 {
        Seq::empty()
    } else {
        let front = steering_writes(entries.drop_last(), target);
        if is_moved(entries.last().0, entries.last().1) {
            front.push(FileText { path: affinity_path(entries.last().0), content: target })
        } else {
            front
        }
    }
}

/// The file in the state directory `crundir` that keeps the affinities the interrupts had.
pub open spec fn state_path(crundir: Seq<char>) -> Seq<char> {
    path_in(crundir, "saved_irq_affinities.json"@)
}

/// The file in the state directory `crundir` that keeps the affinities the interrupts had.
pub fn state_file(crundir: &str) -> (r: String)
    ensures
        r@ == state_path(crundir@),
{
    join_path(crundir, "saved_irq_affinities.json")
}

/// What is to be written to move the interrupts of the host.
#[derive(Debug)]
pub struct SteeringPlan {
    /// The affinity lists.
    pub writes: Vec<FileWrite>,
    /// The file in the state directory that keeps the affinities the interrupts had.
    pub state: Option<FileWrite>,
}

/// Plans to move all interrupts of the host to `steer_cpus`, given the directories under
/// `/proc/irq`. There is nothing to do without a target CPU.
pub fn apply_irq_steering(
    crundir: &str,
    steer_cpus: &[usize],
    entries: &Vec<(String, Affinity)>,
) -> (r: Option<SteeringPlan>)
    ensures
        r is None <==> steer_cpus@.len() == 0,
        r matches Some(plan) ==> {
            &&& plan.writes@.map_values(|w: FileWrite| w@) == steering_writes(
                directories(entries@),
                cpulist_text(steer_cpus@),
            )
            &&& plan.state matches Some(state) && state.path@ == state_path(crundir@)
                && affinities_in(state.content@) is Ok && affinities_in(state.content@)->Ok_0
                == saved_after(directories(entries@))
        },
{
    let mut steering = match IrqSteering::begin(steer_cpus) {
        Some(steering) => steering,
        None => return None,
    };
    let ghost all = directories(entries@);
    let ghost target = cpulist_text(steer_cpus@);
    let mut writes: Vec<FileWrite> = Vec::new();
    let mut i: usize = 0;
    assert(writes@.map_values(|w: FileWrite| w@) =~= Seq::<FileText>::empty());
    while i < entries.len()
        invariant
            all == directories(entries@),
            target == cpulist_text(steer_cpus@),
            i <= entries@.len(),
            steering.target@ == target,
            affinities(steering.saved@) == saved_after(all.take(i as int)),
            writes@.map_values(|w: FileWrite| w@) == steering_writes(all.take(i as int), target),
        decreases entries@.len() - i,
    {
        let ghost before = writes@.map_values(|w: FileWrite| w@);
        assert(all.take(i + 1).drop_last() =~= all.take(i as int));
        match steering.visit(entries[i].0.as_str(), &entries[i].1) {
            Some(w) => {
                let ghost written = w@;
                writes.push(w);
                assert(writes@.map_values(|w: FileWrite| w@) =~= before.push(written));
            },
            None => {},
        }
        i = i + 1;
    }
    assert(all.take(i as int) =~= all);
    let state = match save_affinities(&steering.saved) {
        Some(content) => Some(FileWrite { path: state_file(crundir), content }),
        None => None,
    };
    Some(SteeringPlan { writes, state })
}

// ---------------------------------------------------------------------------
// Back
// ---------------------------------------------------------------------------

/// The write that gives the interrupt `irq` the affinity `affinity`.
pub open spec fn restoring_write(irq: u32, affinity: Seq<char>) -> FileText {
    FileText { path: affinity_path(digits(irq as nat)), content: affinity }
}

/// Whether `writes` restores each interrupt in `saved` once, in some order.
pub open spec fn restores(writes: Seq<FileText>, saved: Map<u32, Seq<char>>) -> bool {
    exists|order: Seq<u32>| #[trigger] restores_in(writes, saved, order)
}

/// Whether `writes` restores the interrupts in `saved`, each once, in the order `order`.
pub open spec fn restores_in(
    writes: Seq<FileText>,
    saved: Map<u32, Seq<char>>,
    order: Seq<u32>,
) -> bool {
    &&& order.no_duplicates()
    &&& order.to_set() == saved.dom()
    &&& writes == order.map_values(|irq: u32| restoring_write(irq, saved[irq]))
}

/// The writes that restore the affinities in `saved`: one for each interrupt.
pub fn restore_writes(saved: &HashMap<u32, String>) -> (r: Vec<FileWrite>)
    ensures
        restores(r@.map_values(|w: FileWrite| w@), affinities(saved@)),
{
    let mut r: Vec<FileWrite> = Vec::new();
    let ghost m = affinities(saved@);
    let entries = saved.iter();
    let ghost pairs = entries.remaining();
    let ghost order = pairs.map_values(|e: (&u32, &String)| *e.0);
    let ghost all = order.map_values(|irq: u32| restoring_write(irq, m[irq]));
    for entry in it: entries
        invariant
            it.seq() == pairs,
            m == affinities(saved@),
            order == pairs.map_values(|e: (&u32, &String)| *e.0),
            all == order.map_values(|irq: u32| restoring_write(irq, m[irq])),
            forall|i: int|
                0 <= i < pairs.len() ==> saved@.contains_key(*(#[trigger] pairs[i]).0)
                    && saved@[*pairs[i].0] == *pairs[i].1,
            r@.map_values(|w: FileWrite| w@) == all.take(it.index() as int),
    {
        let (irq, affinity) = entry;
        let ghost k = it.index() as int;
        let ghost before = r@.map_values(|w: FileWrite| w@);
        r.push(
            FileWrite {
                path: "/proc/irq/".to_owned().concat(print_u64(*irq as u64).as_str()).concat(
                    "/smp_affinity_list",
                ),
                content: affinity.clone(),
            },
        );
        proof {
            assert(entry == pairs[k]);
            assert(m[*irq] == affinity@);
            assert(r@.map_values(|w: FileWrite| w@) =~= before.push(all[k]));
            assert(all.take(k + 1) =~= all.take(k).push(all[k]));
        }
    }
    proof {
        assert(all.take(all.len() as int) =~= all);
        assert forall|i: int, j: int|
            0 <= i < order.len() && 0 <= j < order.len() && i != j implies order[i] != order[j] by {
            if order[i] == order[j] {
                assert(pairs[i] == pairs[j]);
            }
        }
        assert forall|irq: u32| order.to_set().contains(irq) <==> m.dom().contains(irq) by {
            if order.to_set().contains(irq) {
                let i = choose|i: int| 0 <= i < order.len() && order[i] == irq;
                assert(saved@.contains_key(*pairs[i].0));
            }
            if m.dom().contains(irq) {
                assert(saved@.contains_key(irq));
                assert(pairs.contains((&irq, &saved@[irq])));
                let i = choose|i: int| 0 <= i < pairs.len() && pairs[i] == (&irq, &saved@[irq]);
                assert(order[i] == irq);
            }
        }
        assert(order.to_set() =~= m.dom());
        assert(restores_in(r@.map_values(|w: FileWrite| w@), m, order));
    }
    r
}

/// What is to be done to move the interrupts of the host back.
#[derive(Debug)]
pub struct RestoringPlan {
    /// The affinity lists.
    pub writes: Vec<FileWrite>,
    /// The file that is to be removed afterwards.
    pub remove: String,
}

/// What is to be done to move the interrupts of the host back, as texts.
#[verifier::ext_equal]
pub struct RestoringText {
    pub writes: Seq<FileText>,
    pub remove: Seq<char>,
}

impl View for RestoringPlan {
    type V = RestoringText;

    open spec fn view(&self) -> RestoringText {
        RestoringText {
            writes: self.writes@.map_values(|w: FileWrite| w@),
            remove: self.remove@,
        }
    }
}

/// Whether `plan` moves the interrupts of the host back, where `kept` is what the state file in
/// `crundir` holds: nothing is done without a state file; else each affinity in it is written once,
/// and the state file is removed. The error is that of a state file that cannot be read.
pub open spec fn is_way_back(
    crundir: Seq<char>,
    kept: Option<Seq<char>>,
    plan: Result<Option<RestoringText>, Seq<char>>,
) -> bool {
    match kept {
        None => plan == Ok::<Option<RestoringText>, Seq<char>>(None),
        Some(text) => match affinities_in(text) {
            Ok(saved) => plan is Ok && plan->Ok_0 is Some && restores(
                plan->Ok_0->Some_0.writes,
                saved,
            ) && plan->Ok_0->Some_0.remove == state_path(crundir),
            Err(e) => plan == Err::<Option<RestoringText>, Seq<char>>(error_text(e)),
        },
    }
}

/// A plan that may be missing or faulty, as texts.
pub open spec fn plan_text(plan: Result<Option<RestoringPlan>, MalformedState>) -> Result<
    Option<RestoringText>,
    Seq<char>,
> {
    match plan {
        Ok(Some(plan)) => Ok(Some(plan@)),
        Ok(None) => Ok(None),
        Err(fault) => Err(fault.detail@),
    }
}

/// Plans to move the interrupts of the host back, given what the state file in `crundir` holds, if
/// there is one.
pub fn restore_irq_steering(crundir: &str, kept: Option<&str>) -> (r: Result<
    Option<RestoringPlan>,
    MalformedState,
>)
    ensures
        is_way_back(crundir@, kept_text(kept), plan_text(r)),
{
    match kept {
        None => Ok(None),
        Some(text) => match load_affinities(text) {
            Ok(saved) => {
                let writes = restore_writes(&saved);
                Ok(Some(RestoringPlan { writes, remove: state_file(crundir) }))
            },
            Err(fault) => Err(fault),
        },
    }
}

// ---------------------------------------------------------------------------
// What restoring owes to steering
// ---------------------------------------------------------------------------

/// All interrupts that can be moved go to the target CPUs, and nothing else is written.
pub proof fn law_all_movable_interrupts_are_steered(
    entries: Seq<(Seq<char>, Affinity)>,
    target: Seq<char>,
)
    ensures
        forall|i: int|
            0 <= i < entries.len() && #[trigger] is_moved(entries[i].0, entries[i].1)
                ==> steering_writes(entries, target).contains(
                FileText { path: affinity_path(entries[i].0), content: target },
            ),
        forall|w: FileText| #[trigger]
            steering_writes(entries, target).contains(w) ==> exists|i: int|
                0 <= i < entries.len() && #[trigger] is_moved(entries[i].0, entries[i].1) && w == (
                FileText { path: affinity_path(entries[i].0), content: target }),
    decreases entries.len(),
{
    if entries.len() > 0 {
        let front = entries.drop_last();
        let n = entries.len() - 1;
        let writes = steering_writes(entries, target);
        let before = steering_writes(front, target);
        law_all_movable_interrupts_are_steered(front, target);
        assert forall|i: int|
            0 <= i < entries.len() && #[trigger] is_moved(
                entries[i].0,
                entries[i].1,
            ) implies writes.contains(
            FileText { path: affinity_path(entries[i].0), content: target },
        ) by {
            let w = FileText { path: affinity_path(entries[i].0), content: target };
            if i < n {
                assert(is_moved(front[i].0, front[i].1));
                let k = choose|k: int| 0 <= k < before.len() && before[k] == w;
                assert(writes[k] == w);
            } else {
                assert(writes[writes.len() - 1] == w);
            }
        }
        assert forall|w: FileText| #[trigger] writes.contains(w) implies exists|i: int|
            0 <= i < entries.len() && #[trigger] is_moved(entries[i].0, entries[i].1) && w == (
            FileText { path: affinity_path(entries[i].0), content: target }) by {
            let k = choose|k: int| 0 <= k < writes.len() && writes[k] == w;
            if k < before.len() {
                assert(before[k] == w);
                assert(before.contains(w));
                let i = choose|i: int|
                    0 <= i < front.len() && #[trigger] is_moved(front[i].0, front[i].1) && w == (
                    FileText { path: affinity_path(front[i].0), content: target });
                assert(is_moved(entries[i].0, entries[i].1));
            } else {
                assert(is_moved(entries[n].0, entries[n].1));
            }
        }
    }
}

/// Restoring undoes steering: an interrupt that was moved gets back, in the very file that was
/// written, the affinity it had before (without surrounding whitespace), and gets it whatever
/// the order of the writes. The interrupt's directory has the name that the kernel gives it,
/// and no other directory stands for the same interrupt.
pub proof fn law_restore_undoes_steering(
    entries: Seq<(Seq<char>, Affinity)>,
    i: int,
    irq: u32,
    text: String,
    writes: Seq<FileText>,
)
    requires
        0 <= i < entries.len(),
        entries[i] == (digits(irq as nat), Affinity::Text(text)),
        forall|j: int|
            0 <= j < entries.len() && j != i ==> number((#[trigger] entries[j]).0, u32::MAX as nat)
                != Ok::<nat, crate::decimal::NumberError>(irq as nat),
        restores(writes, saved_after(entries)),
    ensures
        writes.contains(FileText { path: affinity_path(entries[i].0), content: trimmed(text@) }),
{
    lemma_saved_after(entries, i, irq, text);
    let saved = saved_after(entries);
    let order = choose|order: Seq<u32>| #[trigger] restores_in(writes, saved, order);
    assert(order.to_set().contains(irq));
    let k = choose|k: int| 0 <= k < order.len() && order[k] == irq;
    assert(writes[k] == restoring_write(irq, saved[irq]));
}

proof fn lemma_saved_after(
    entries: Seq<(Seq<char>, Affinity)>,
    i: int,
    irq: u32,
    text: String,
)
    requires
        0 <= i < entries.len(),
        entries[i] == (digits(irq as nat), Affinity::Text(text)),
        forall|j: int|
            0 <= j < entries.len() && j != i ==> number((#[trigger] entries[j]).0, u32::MAX as nat)
                != Ok::<nat, crate::decimal::NumberError>(irq as nat),
    ensures
        saved_after(entries).dom().contains(irq),
        saved_after(entries)[irq] == trimmed(text@),
    decreases entries.len(),
{
    law_parse_inverts_print(irq as nat, u32::MAX as nat);
    if i < entries.len() - 1 {
        let front = entries.drop_last();
        assert forall|j: int| 0 <= j < front.len() && j != i implies number(
            (#[trigger] front[j]).0,
            u32::MAX as nat,
        ) != Ok::<nat, crate::decimal::NumberError>(irq as nat) by {
            assert(entries[j] == front[j]);
        }
        lemma_saved_after(front, i, irq, text);
        crate::decimal::lemma_number_bound(entries.last().0, u32::MAX as nat);
        assert(number(entries[entries.len() - 1].0, u32::MAX as nat) != Ok::<
            nat,
            crate::decimal::NumberError,
        >(irq as nat));
    }
}

/// Nothing else is touched: every write that restores goes to an interrupt whose affinity was
/// saved on a visit.
pub proof fn law_restore_touches_only_what_was_saved(
    entries: Seq<(Seq<char>, Affinity)>,
    writes: Seq<FileText>,
    k: int,
)
    requires
        restores(writes, saved_after(entries)),
        0 <= k < writes.len(),
    ensures
        exists|i: int|
            0 <= i < entries.len() && #[trigger] is_moved(entries[i].0, entries[i].1)
                && entries[i].1 is Text && writes[k] == restoring_write(
                number(entries[i].0, u32::MAX as nat)->Ok_0 as u32,
                trimmed(entries[i].1->Text_0@),
            ),
{
    let saved = saved_after(entries);
    let order = choose|order: Seq<u32>| #[trigger] restores_in(writes, saved, order);
    assert(order.to_set().contains(order[k]));
    lemma_saved_from(entries, order[k]);
}

proof fn lemma_saved_from(entries: Seq<(Seq<char>, Affinity)>, irq: u32)
    requires
        saved_after(entries).dom().contains(irq),
    ensures
        exists|i: int|
            0 <= i < entries.len() && #[trigger] is_moved(entries[i].0, entries[i].1)
                && entries[i].1 is Text && irq == number(
                entries[i].0,
                u32::MAX as nat,
            )->Ok_0 as u32 && saved_after(entries)[irq] == trimmed(entries[i].1->Text_0@),
    decreases entries.len(),
{
    if entries.len() > 0 {
        let front = entries.drop_last();
        let n = entries.len() - 1;
        if is_moved(entries[n].0, entries[n].1) && entries[n].1 is Text && irq == number(
            entries[n].0,
            u32::MAX as nat,
        )->Ok_0 as u32 {
        } else {
            lemma_saved_from(front, irq);
            let i = choose|i: int|
                0 <= i < front.len() && #[trigger] is_moved(front[i].0, front[i].1)
                    && front[i].1 is Text && irq == number(
                    front[i].0,
                    u32::MAX as nat,
                )->Ok_0 as u32 && saved_after(front)[irq] == trimmed(front[i].1->Text_0@);
            assert(entries[i] == front[i]);
            assert(is_moved(entries[i].0, entries[i].1));
        }
    }
}

// ---------------------------------------------------------------------------
// Files on their way through steering and restoring
// ---------------------------------------------------------------------------

/// What the files of the host hold after `writes`, one after the other.
pub open spec fn written(
    files: Map<Seq<char>, Seq<char>>,
    writes: Seq<FileText>,
) -> Map<Seq<char>, Seq<char>>
    decreases writes.len(),
{
    if writes.len() == 0 {
        files
    } else {
        written(files, writes.drop_last()).insert(writes.last().path, writes.last().content)
    }
}

/// What the files hold after the interrupts were moved to `target` and `kept` was written to the
/// state file.
pub open spec fn steered(
    files: Map<Seq<char>, Seq<char>>,
    crundir: Seq<char>,
    entries: Seq<(Seq<char>, Affinity)>,
    target: Seq<char>,
    kept: Seq<char>,
) -> Map<Seq<char>, Seq<char>> {
    written(files, steering_writes(entries, target)).insert(state_path(crundir), kept)
}

/// What the files hold after `plan` was carried out.
pub open spec fn carried_out(
    files: Map<Seq<char>, Seq<char>>,
    plan: Option<RestoringText>,
) -> Map<Seq<char>, Seq<char>> {
    match plan {
        Some(plan) => written(files, plan.writes).remove(plan.remove),
        None => files,
    }
}

/// What the file `path` holds, if there is one.
pub open spec fn content_of(files: Map<Seq<char>, Seq<char>>, path: Seq<char>) -> Option<
    Seq<char>,
> {
    if files.contains_key(path) {
        Some(files[path])
    } else {
        None
    }
}

/// Whether `entries` are the directories of the interrupts as the kernel names them, and what was
/// read of their affinity lists is what `files` holds.
pub open spec fn are_read_from(
    entries: Seq<(Seq<char>, Affinity)>,
    files: Map<Seq<char>, Seq<char>>,
) -> bool {
    &&& forall|i: int, j: int|
        0 <= i < j < entries.len() ==> (#[trigger] entries[i]).0 != (#[trigger] entries[j]).0
    &&& forall|i: int|
        0 <= i < entries.len() && number((#[trigger] entries[i]).0, u32::MAX as nat) is Ok
            ==> entries[i].0 == digits(number(entries[i].0, u32::MAX as nat)->Ok_0)
    &&& forall|i: int|
        0 <= i < entries.len() ==> ((#[trigger] entries[i]).1 matches Affinity::Text(text)
            ==> content_of(files, affinity_path(entries[i].0)) == Some(text@))
}

/// The state file of steering is read back, and restoring succeeds. Each interrupt whose affinity
/// was saved then has the affinity it had before it was moved, without surrounding whitespace. The
/// state file is gone, so that restoring once more does nothing.
pub proof fn law_restoring_brings_everything_back(
    files: Map<Seq<char>, Seq<char>>,
    crundir: Seq<char>,
    entries: Seq<(Seq<char>, Affinity)>,
    target: Seq<char>,
    kept: Seq<char>,
    plan: Result<Option<RestoringText>, Seq<char>>,
    again: Result<Option<RestoringText>, Seq<char>>,
)
    requires
        are_read_from(entries, files),
        affinities_in(kept) is Ok,
        affinities_in(kept)->Ok_0 == saved_after(entries),
        ({
            let during = steered(files, crundir, entries, target, kept);
            is_way_back(crundir, content_of(during, state_path(crundir)), plan)
        }),
        ({
            let during = steered(files, crundir, entries, target, kept);
            let after = carried_out(during, plan->Ok_0);
            is_way_back(crundir, content_of(after, state_path(crundir)), again)
        }),
    ensures
        ({
            let during = steered(files, crundir, entries, target, kept);
            let after = carried_out(during, plan->Ok_0);
            &&& content_of(during, state_path(crundir)) == Some(kept)
            &&& plan is Ok
            &&& forall|i: int|
                0 <= i < entries.len() && number((#[trigger] entries[i]).0, u32::MAX as nat) is Ok
                    && entries[i].1 is Text ==> content_of(after, affinity_path(entries[i].0))
                    == Some(trimmed(files[affinity_path(entries[i].0)]))
            &&& content_of(after, state_path(crundir)) is None
            &&& again == Ok::<Option<RestoringText>, Seq<char>>(None)
            &&& carried_out(after, again->Ok_0) == after
        }),
{
    let during = steered(files, crundir, entries, target, kept);
    let saved = saved_after(entries);
    let way = plan->Ok_0->Some_0;
    let after = carried_out(during, plan->Ok_0);
    assert forall|i: int|
        0 <= i < entries.len() && number((#[trigger] entries[i]).0, u32::MAX as nat) is Ok
            && entries[i].1 is Text implies content_of(after, affinity_path(entries[i].0)) == Some(
        trimmed(files[affinity_path(entries[i].0)]),
    ) by {
        let text = entries[i].1->Text_0;
        let n = number(entries[i].0, u32::MAX as nat)->Ok_0;
        crate::decimal::lemma_number_bound(entries[i].0, u32::MAX as nat);
        let irq = n as u32;
        assert forall|j: int| 0 <= j < entries.len() && j != i implies number(
            (#[trigger] entries[j]).0,
            u32::MAX as nat,
        ) != Ok::<nat, crate::decimal::NumberError>(irq as nat) by {
            if i < j {
                assert(entries[i].0 != entries[j].0);
            } else {
                assert(entries[j].0 != entries[i].0);
            }
        }
        lemma_saved_after(entries, i, irq, text);
        lemma_restored(during, way.writes, saved, irq);
        lemma_state_is_no_affinity(crundir, entries[i].0);
        assert(content_of(files, affinity_path(entries[i].0)) == Some(text@));
    }
}

/// The state file is not the affinity list of an interrupt.
proof fn lemma_state_is_no_affinity(crundir: Seq<char>, name: Seq<char>)
    ensures
        state_path(crundir) != affinity_path(name),
{
    reveal_strlit("saved_irq_affinities.json");
    reveal_strlit("/smp_affinity_list");
    assert(state_path(crundir).last() == 'n');
    assert(affinity_path(name).last() == 't');
}

/// After restoring, the affinity list of a saved interrupt holds what was saved.
proof fn lemma_restored(
    files: Map<Seq<char>, Seq<char>>,
    writes: Seq<FileText>,
    saved: Map<u32, Seq<char>>,
    irq: u32,
)
    requires
        restores(writes, saved),
        saved.dom().contains(irq),
    ensures
        written(files, writes).contains_key(affinity_path(digits(irq as nat))),
        written(files, writes)[affinity_path(digits(irq as nat))] == saved[irq],
{
    let order = choose|order: Seq<u32>| #[trigger] restores_in(writes, saved, order);
    assert(order.to_set().contains(irq));
    let k = choose|k: int| 0 <= k < order.len() && order[k] == irq;
    assert(writes[k] == restoring_write(irq, saved[irq]));
    assert forall|j: int| k < j < writes.len() implies (#[trigger] writes[j]).path
        != writes[k].path by {
        assert(writes[j] == restoring_write(order[j], saved[order[j]]));
        assert(order[j] != order[k]);
        if writes[j].path == writes[k].path {
            lemma_affinity_path_is_injective(digits(order[j] as nat), digits(irq as nat));
            crate::decimal::law_print_is_injective(order[j] as nat, irq as nat);
        }
    }
    lemma_written(files, writes, k);
}

proof fn lemma_affinity_path_is_injective(a: Seq<char>, b: Seq<char>)
    requires
        affinity_path(a) == affinity_path(b),
    ensures
        a == b,
{
    let n = "/proc/irq/"@.len() as int;
    assert(affinity_path(a).len() == n + a.len() + "/smp_affinity_list"@.len());
    assert(affinity_path(b).len() == n + b.len() + "/smp_affinity_list"@.len());
    assert(affinity_path(a).subrange(n, n + a.len()) =~= a);
    assert(affinity_path(b).subrange(n, n + b.len()) =~= b);
}

/// A file holds what was written to it last.
proof fn lemma_written(files: Map<Seq<char>, Seq<char>>, writes: Seq<FileText>, k: int)
    requires
        0 <= k < writes.len(),
        forall|j: int| k < j < writes.len() ==> (#[trigger] writes[j]).path != writes[k].path,
    ensures
        written(files, writes).contains_key(writes[k].path),
        written(files, writes)[writes[k].path] == writes[k].content,
    decreases writes.len(),
{
    if k < writes.len() - 1 {
        let front = writes.drop_last();
        assert forall|j: int| k < j < front.len() implies (#[trigger] front[j]).path
            != front[k].path by {
            assert(front[j] == writes[j]);
        }
        lemma_written(files, front, k);
        assert(writes[writes.len() - 1].path != writes[k].path);
    }
}

// ---------------------------------------------------------------------------
// What a single visit does
// ---------------------------------------------------------------------------

/// The directory of an interrupt bears its number. Its affinity list is written if there is one, and
/// what the list held is saved under the number, trimmed, if it can be read. No other directory is
/// touched.
pub proof fn law_visit_of_a_directory(
    saved: Map<u32, Seq<char>>,
    irq: u32,
    text: String,
    name: Seq<char>,
    affinity: Affinity,
)
    ensures
        saved_after_visit(saved, digits(irq as nat), Affinity::Text(text)) == saved.insert(
            irq,
            trimmed(text@),
        ),
        saved_after_visit(saved, name, Affinity::Missing) == saved,
        saved_after_visit(saved, name, Affinity::Unreadable) == saved,
        is_moved(digits(irq as nat), affinity) <==> !(affinity is Missing),
        number(name, u32::MAX as nat) matches Ok(n) ==> (is_moved(name, affinity) <==> !(
        affinity is Missing)) && saved_after_visit(saved, name, Affinity::Text(text))
            == saved.insert(n as u32, trimmed(text@)),
        number(name, u32::MAX as nat) is Err ==> !is_moved(name, affinity) && saved_after_visit(
            saved,
            name,
            affinity,
        ) == saved,
{
    law_parse_inverts_print(irq as nat, u32::MAX as nat);
}

/// The writes of a host are those of its directories in their order: a directory of an interrupt that
/// can be moved adds the write of the target CPUs to its affinity list.
pub proof fn law_writes_go_directory_by_directory(
    entries: Seq<(Seq<char>, Affinity)>,
    irq: u32,
    affinity: Affinity,
    target: Seq<char>,
)
    ensures
        steering_writes(Seq::empty(), target) == Seq::<FileText>::empty(),
        affinity is Missing ==> steering_writes(
            entries.push((digits(irq as nat), affinity)),
            target,
        ) == steering_writes(entries, target),
        !(affinity is Missing) ==> steering_writes(
            entries.push((digits(irq as nat), affinity)),
            target,
        ) == steering_writes(entries, target).push(
            FileText {
                path: "/proc/irq/"@ + digits(irq as nat) + "/smp_affinity_list"@,
                content: target,
            },
        ),
{
    law_parse_inverts_print(irq as nat, u32::MAX as nat);
    assert(entries.push((digits(irq as nat), affinity)).drop_last() =~= entries);
}

/// What is kept of the affinities decides what restoring does: nothing without a state file, an error
/// that tells what is wrong with a damaged one, and else one write for each interrupt in it, of what
/// it held, and the removal of the state file.
pub proof fn law_restoring_follows_the_state_file(
    crundir: Seq<char>,
    kept: Seq<char>,
    plan: Result<Option<RestoringText>, Seq<char>>,
)
    ensures
        is_way_back(crundir, None, plan) ==> plan == Ok::<Option<RestoringText>, Seq<char>>(None),
        is_way_back(crundir, Some(kept), plan) && affinities_in(kept) is Err ==> plan == Err::<
            Option<RestoringText>,
            Seq<char>,
        >(error_text(affinities_in(kept)->Err_0)),
        is_way_back(crundir, Some(kept), plan) && affinities_in(kept) is Ok ==> {
            let saved = affinities_in(kept)->Ok_0;
            &&& plan is Ok && plan->Ok_0 is Some
            &&& plan->Ok_0->Some_0.remove == path_in(crundir, "saved_irq_affinities.json"@)
            &&& forall|irq: u32| #[trigger]
                saved.contains_key(irq) ==> plan->Ok_0->Some_0.writes.contains(
                    FileText {
                        path: "/proc/irq/"@ + digits(irq as nat) + "/smp_affinity_list"@,
                        content: saved[irq],
                    },
                )
            &&& plan->Ok_0->Some_0.writes.len() == saved.dom().len()
        },
{
    if is_way_back(crundir, Some(kept), plan) && affinities_in(kept) is Ok {
        let saved = affinities_in(kept)->Ok_0;
        let writes = plan->Ok_0->Some_0.writes;
        let order = choose|order: Seq<u32>| #[trigger] restores_in(writes, saved, order);
        order.unique_seq_to_set();
        assert forall|irq: u32| #[trigger] saved.contains_key(irq) implies writes.contains(
            FileText {
                path: "/proc/irq/"@ + digits(irq as nat) + "/smp_affinity_list"@,
                content: saved[irq],
            },
        ) by {
            assert(order.to_set().contains(irq));
            let k = choose|k: int| 0 <= k < order.len() && order[k] == irq;
            assert(writes[k] == restoring_write(irq, saved[irq]));
        }
    }
}

/// A plan to move interrupts back, and affinities, are the same as texts as they are as strings.
pub proof fn law_plans_as_texts(plan: RestoringPlan, fault: MalformedState, m: Map<u32, String>)
    ensures
        plan@.remove == plan.remove@,
        plan@.writes.len() == plan.writes@.len(),
        forall|i: int|
            0 <= i < plan.writes@.len() ==> #[trigger] plan@.writes[i] == plan.writes@[i]@,
        plan_text(Ok(Some(plan))) == Ok::<Option<RestoringText>, Seq<char>>(Some(plan@)),
        plan_text(Ok(None)) == Ok::<Option<RestoringText>, Seq<char>>(None),
        plan_text(Err(fault)) == Err::<Option<RestoringText>, Seq<char>>(fault.detail@),
        affinities(m).dom() == m.dom(),
        forall|irq: u32| m.contains_key(irq) ==> #[trigger] affinities(m)[irq] == m[irq]@,
{
    assert(affinities(m).dom() =~= m.dom());
}

}
