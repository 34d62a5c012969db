//! Interrupt steering: CPU lists, isolated CPUs, and the affinities that are saved and restored.
use vstd::prelude::*;

use std::collections::HashSet;

use crate::decimal::{
    digits, is_digit, law_parse_inverts_print, lemma_digits, number, parse_usize, print_usize,
};
use crate::frontend::{FrontendConfig, ImageConfig};
use crate::json::{at, json_of, member, u64_in, Json};
use crate::text::{
    find, index_of, is_blank, is_space, join, join_strings, law_joining, law_split_comes_together,
    law_trimming, lemma_find, lemma_find_is, lemma_split_append, lemma_split_join,
    lemma_trim_front_pad, lemma_trimmed_edges, lemma_trimmed_is_same, split, split_at_each, strings,
    texts, trim, trimmed,
};

pub mod affinity;

verus! {

broadcast use {vstd::string::group_string_axioms, vstd::std_specs::hash::group_hash_axioms};

// ---------------------------------------------------------------------------
// CPU lists
// ---------------------------------------------------------------------------

/// The first and the last CPU that a piece of a CPU list names: `5` or `1-3`.
/// A piece of any other form names none.
pub open spec fn piece_bounds(piece: Seq<char>) -> Option<(nat, nat)> {
    let p = trimmed(piece);
    let i = find(p, '-');
    if i < p.len() {
        match (
            number(trimmed(p.take(i)), usize::MAX as nat),
            number(trimmed(p.skip(i + 1)), usize::MAX as nat),
        ) {
            (Ok(first), Ok(last)) => Some((first, last)),
            _ => None,
        }
    } else {
        match number(p, usize::MAX as nat) {
            Ok(n) => Some((n, n)),
            Err(_) => None,
        }
    }
}

/// Whether a piece of a CPU list names `cpu`.
pub open spec fn names_cpu(piece: Seq<char>, cpu: usize) -> bool {
    match piece_bounds(piece) {
        Some((first, last)) => first <= cpu <= last,
        None => false,
    }
}

/// The CPUs in a Linux CPU list, such as `0`, `1,2` or `1-3,5`.
pub open spec fn cpulist(s: Seq<char>) -> Set<usize> {
    let pieces = split_at_each(trimmed(s), ',');
    Set::new(|cpu: usize| exists|i: int| 0 <= i < pieces.len() && names_cpu(#[trigger] pieces[i], cpu))
}

/// Adds the CPUs from `first` to `last` to `set`.
fn add_range(set: &mut HashSet<usize>, first: usize, last: usize)
    ensures
        final(set)@ == old(set)@.union(Set::new(|cpu: usize| first <= cpu <= last)),
{
    if first > last {
        assert(set@ =~= old(set)@.union(Set::new(|cpu: usize| first <= cpu <= last)));
        return;
    }
    let mut cpu: usize = first;
    while cpu < last
        invariant
            first <= cpu <= last,
            set@ == old(set)@.union(Set::new(|c: usize| first <= c < cpu)),
        decreases last - cpu,
    {
        set.insert(cpu);
        assert(set@ =~= old(set)@.union(Set::new(|c: usize| first <= c < cpu + 1)));
        cpu = cpu + 1;
    }
    set.insert(cpu);
    assert(set@ =~= old(set)@.union(Set::new(|c: usize| first <= c <= last)));
}

/// The bounds that a piece of a CPU list names.
fn parse_piece(piece: &str) -> (r: Option<(usize, usize)>)
    ensures
        match r {
            Some((first, last)) => piece_bounds(piece@) == Some((first as nat, last as nat)),
            None => piece_bounds(piece@) is None,
        },
{
    let p = trim(piece);
    let n: usize = p.unicode_len();
    let i: usize = index_of(p, '-');
    if i < n {
        let first = trim(p.substring_char(0, i));
        let last = trim(p.substring_char(i + 1, n));
        proof {
            assert(p@.subrange(0, i as int) =~= p@.take(i as int));
            assert(p@.subrange(i + 1, n as int) =~= p@.skip(i + 1));
        }
        match (parse_usize(first), parse_usize(last)) {
            (Ok(a), Ok(b)) => Some((a, b)),
            _ => None,
        }
    } else {
        match parse_usize(p) {
            Ok(a) => Some((a, a)),
            Err(_) => None,
        }
    }
}

/// Adds the CPUs in the CPU list `s` to `set`.
fn add_cpulist(set: &mut HashSet<usize>, s: &str)
    ensures
        final(set)@ == old(set)@.union(cpulist(s@)),
{
    let pieces = split(trim(s), ',');
    let ghost all = split_at_each(trimmed(s@), ',');
    let ghost before = set@;
    let mut k: usize = 0;
    assert(set@ =~= before.union(
        Set::new(|cpu: usize| exists|i: int| 0 <= i < 0 && names_cpu(#[trigger] all[i], cpu)),
    ));
    while k < pieces.len()
        invariant
            texts(pieces@) == all,
            before == old(set)@,
            k <= pieces@.len(),
            set@ == before.union(
                Set::new(
                    |cpu: usize| exists|i: int| 0 <= i < k && names_cpu(#[trigger] all[i], cpu),
                ),
            ),
        decreases pieces@.len() - k,
    {
        let ghost prev = set@;
        let bounds = parse_piece(pieces[k]);
        assert(all[k as int] == pieces@[k as int]@);
        match bounds {
            Some((first, last)) => {
                add_range(set, first, last);
            },
            None => {},
        }
        proof {
            let next = before.union(
                Set::new(
                    |cpu: usize| exists|i: int| 0 <= i < k + 1 && names_cpu(#[trigger] all[i], cpu),
                ),
            );
            assert forall|cpu: usize| set@.contains(cpu) <==> next.contains(cpu) by {
                if set@.contains(cpu) {
                    if !prev.contains(cpu) {
                        assert(names_cpu(all[k as int], cpu));
                    }
                }
                if next.contains(cpu) && !before.contains(cpu) {
                    let i = choose|i: int| 0 <= i < k + 1 && names_cpu(#[trigger] all[i], cpu);
                    if i < k {
                        assert(prev.contains(cpu));
                    }
                }
            }
            assert(set@ =~= next);
        }
        k = k + 1;
    }
    assert(set@ =~= before.union(cpulist(s@)));
}

/// Parses a Linux CPU list, such as `0`, `1,2` or `1-3,5`, into a set of CPU ids.
/// A piece that is neither a number nor a range is passed over.
pub fn parse_cpulist(s: &str) -> (set: HashSet<usize>)
    ensures
        set@ == cpulist(s@),
{
    let mut set: HashSet<usize> = HashSet::new();
    add_cpulist(&mut set, s);
    assert(set@ =~= cpulist(s@));
    set
}

/// The CPU list that names the CPUs in `cpus`, one by one.
pub open spec fn cpulist_text(cpus: Seq<usize>) -> Seq<char> {
    join(cpus.map_values(|cpu: usize| digits(cpu as nat)), ","@)
}

/// The CPU list that names the CPUs in `cpus`, one by one.
pub fn print_cpulist(cpus: &[usize]) -> (r: String)
    ensures
        r@ == cpulist_text(cpus@),
{
    let mut parts: Vec<String> = Vec::new();
    let mut i: usize = 0;
    let ghost all = cpus@.map_values(|cpu: usize| digits(cpu as nat));
    while i < cpus.len()
        invariant
            all == cpus@.map_values(|cpu: usize| digits(cpu as nat)),
            i <= cpus@.len(),
            strings(parts@) == all.take(i as int),
        decreases cpus@.len() - i,
    {
        let ghost before = strings(parts@);
        parts.push(print_usize(cpus[i]));
        assert(strings(parts@) =~= before.push(all[i as int]));
        assert(all.take(i + 1) =~= all.take(i as int).push(all[i as int]));
        i = i + 1;
    }
    assert(all.take(i as int) =~= all);
    join_strings(&parts, ",")
}

/// A CPU list read back names exactly the CPUs it was printed from.
pub proof fn law_cpulist_reads_back(cpus: Seq<usize>)
    ensures
        cpulist(cpulist_text(cpus)) == cpus.to_set(),
{
    reveal_strlit(",");
    let parts = cpus.map_values(|cpu: usize| digits(cpu as nat));
    let s = cpulist_text(cpus);
    assert(","@ =~= seq![',']);
    assert forall|i: int, j: int| 0 <= i < parts.len() && 0 <= j < parts[i].len() implies is_digit(
        #[trigger] parts[i][j],
    ) by {
        lemma_digits(cpus[i] as nat);
    }
    lemma_join_edges(parts);
    lemma_trimmed_is_same(s);
    if cpus.len() == 0 {
        assert(split_at_each(s, ',') =~= seq![s]);
        lemma_find_is(s, '-', 0);
        assert(cpulist(s) =~= cpus.to_set());
    } else {
        lemma_split_join(parts, ',');
        let pieces = split_at_each(trimmed(s), ',');
        assert(pieces == parts);
        assert forall|i: int| 0 <= i < parts.len() implies piece_bounds(#[trigger] parts[i]) == Some(
            (cpus[i] as nat, cpus[i] as nat),
        ) by {
            let p = parts[i];
            lemma_digits(cpus[i] as nat);
            assert(is_digit(p[0]) && is_digit(p.last()));
            lemma_trimmed_is_same(p);
            assert forall|j: int| 0 <= j < p.len() implies p[j] != '-' by {
                assert(is_digit(p[j]));
            }
            lemma_find_is(p, '-', p.len() as int);
            law_parse_inverts_print(cpus[i] as nat, usize::MAX as nat);
        }
        assert forall|cpu: usize| cpulist(s).contains(cpu) <==> cpus.to_set().contains(cpu) by {
            if cpulist(s).contains(cpu) {
                let i = choose|i: int| 0 <= i < pieces.len() && names_cpu(#[trigger] pieces[i], cpu);
                assert(piece_bounds(parts[i]) == Some((cpus[i] as nat, cpus[i] as nat)));
                assert(cpus[i] == cpu);
            }
            if cpus.to_set().contains(cpu) {
                let i = choose|i: int| 0 <= i < cpus.len() && cpus[i] == cpu;
                assert(names_cpu(pieces[i], cpu));
            }
        }
        assert(cpulist(s) =~= cpus.to_set());
    }
}

/// A CPU list starts and ends with a digit.
proof fn lemma_join_edges(parts: Seq<Seq<char>>)
    requires
        forall|i: int| 0 <= i < parts.len() ==> (#[trigger] parts[i]).len() > 0,
        forall|i: int, j: int|
            0 <= i < parts.len() && 0 <= j < parts[i].len() ==> is_digit(#[trigger] parts[i][j]),
    ensures
        parts.len() == 0 ==> join(parts, ","@).len() == 0,
        parts.len() > 0 ==> join(parts, ","@).len() > 0 && is_digit(join(parts, ","@)[0])
            && is_digit(join(parts, ","@).last()),
    decreases parts.len(),
{
    if parts.len() > 0 {
        let last = parts.last();
        assert(parts[parts.len() - 1].len() > 0);
        assert(is_digit(parts[parts.len() - 1][last.len() - 1]));
        assert(is_digit(parts[0][0]));
        if parts.len() > 1 {
            let front = parts.drop_last();
            assert forall|i: int, j: int| 0 <= i < front.len() && 0 <= j < front[i].len() implies
                is_digit(#[trigger] front[i][j]) by {
                assert(is_digit(parts[i][j]));
            }
            assert forall|i: int| 0 <= i < front.len() implies (#[trigger] front[i]).len() > 0 by {
                assert(parts[i].len() > 0);
            }
            lemma_join_edges(front);
        }
    }
}

// ---------------------------------------------------------------------------
// Isolated CPUs
// ---------------------------------------------------------------------------

/// What the host says of its CPUs.
#[derive(Debug)]
pub struct HostCpus {
    /// Content of `/sys/devices/system/cpu/isolated`, if it can be read.
    pub isolated: Option<String>,
    /// Content of `/sys/devices/system/cpu/nohz_full`, if it can be read.
    pub nohz_full: Option<String>,
}

/// The CPUs in a CPU list that may be missing.
pub open spec fn cpus_in(list: Option<String>) -> Set<usize> {
    match list {
        Some(s) => cpulist(s@),
        None => Set::empty(),
    }
}

/// The CPUs that the host or the image declares isolated or tickless.
pub open spec fn isolated_cpus(ic: ImageConfig, host: HostCpus) -> Set<usize> {
    cpus_in(host.isolated).union(cpus_in(host.nohz_full)).union(cpulist(ic.isolcpu@)).union(
        cpulist(ic.nohz_full@),
    )
}

/// Collects all isolated CPUs: those that the host isolates or runs without a tick, and those
/// that the image names in `isolcpu` and `nohz_full`.
pub fn get_isolated_cpus(ic: &ImageConfig, host: &HostCpus) -> (set: HashSet<usize>)
    ensures
        set@ == isolated_cpus(*ic, *host),
{
    let mut set: HashSet<usize> = HashSet::new();
    match &host.isolated {
        Some(s) => add_cpulist(&mut set, s.as_str()),
        None => {},
    }
    assert(set@ =~= cpus_in(host.isolated));
    match &host.nohz_full {
        Some(s) => add_cpulist(&mut set, s.as_str()),
        None => {},
    }
    assert(set@ =~= cpus_in(host.isolated).union(cpus_in(host.nohz_full)));
    add_cpulist(&mut set, ic.isolcpu.as_str());
    add_cpulist(&mut set, ic.nohz_full.as_str());
    set
}

// ---------------------------------------------------------------------------
// Target CPUs
// ---------------------------------------------------------------------------

/// The CPU ids in a JSON array; what is not a CPU id is passed over.
pub open spec fn cpu_ids(items: Seq<Json>) -> Seq<usize>
    decreases items.len(),
{
    if items.len() == 0 {
        Seq::empty()
    } else {
        let front = cpu_ids(items.drop_last());
        match u64_in(items.last()) {
            Some(n) => front.push(n as usize),
            None => front,
        }
    }
}

/// The CPUs that interrupts go to: those of the image, or else those of the container.
pub open spec fn steer_targets(fc: FrontendConfig, ic: ImageConfig) -> Option<Seq<usize>> {
    match ic.steer_irq {
        Some(cpus) if cpus@.len() > 0 => Some(cpus@),
        _ => match member(json_of(fc.jsonconfig), "steer_irq"@) {
            Json::List(items) => if cpu_ids(items).len() > 0 {
                Some(cpu_ids(items))
            } else {
                None
            },
            _ => None,
        },
    }
}

/// Resolves the CPUs that interrupts go to: `steer_irq` of the image, or else that of the
/// container. Nothing is steered where neither names a CPU.
pub fn get_steer_irqs(fc: &FrontendConfig, ic: &ImageConfig) -> (r: Option<Vec<usize>>)
    ensures
        match r {
            Some(cpus) => steer_targets(*fc, *ic) == Some(cpus@),
            None => steer_targets(*fc, *ic) is None,
        },
{
    match &ic.steer_irq {
        Some(cpus) => {
            if cpus.len() > 0 {
                let r = cpus.clone();
                assert(r@ =~= cpus@);
                return Some(r);
            }
        },
        None => {},
    }
    match at(&fc.jsonconfig, "steer_irq").as_array() {
        Some(items) => {
            let mut cpus: Vec<usize> = Vec::new();
            let mut i: usize = 0;
            let ghost all = Seq::new(items@.len(), |k: int| json_of(items@[k]));
            while i < items.len()
                invariant
                    all == Seq::new(items@.len(), |k: int| json_of(items@[k])),
                    i <= items@.len(),
                    cpus@ == cpu_ids(all.take(i as int)),
                decreases items@.len() - i,
            {
                assert(all.take(i + 1).drop_last() =~= all.take(i as int));
                match items[i].as_u64() {
                    Some(n) => cpus.push(n as usize),
                    None => {},
                }
                i = i + 1;
            }
            assert(all.take(i as int) =~= all);
            if cpus.len() > 0 {
                Some(cpus)
            } else {
                None
            }
        },
        None => None,
    }
}

/// What is said of a target CPU that is isolated.
pub open spec fn isolation_warning(cpu: usize) -> Seq<char> {
    "CPU "@ + digits(cpu as nat)
        + " is isolated, but specified in steer_irq! Redirecting IRQs to an isolated CPU may compromise real-time performance."@
}

/// What is said of the target CPUs `cpus`: one warning for each that is isolated, in their order.
pub open spec fn isolation_warnings(cpus: Seq<usize>, isolated: Set<usize>) -> Seq<Seq<char>>
    decreases cpus.len(),
{
    if cpus.len() == 0 {
        Seq::empty()
    } else {
        let front = isolation_warnings(cpus.drop_last(), isolated);
        if isolated.contains(cpus.last()) {
            front.push(isolation_warning(cpus.last()))
        } else {
            front
        }
    }
}

/// The warnings that are due if CPUs in the steering list are isolated: one for each.
pub fn warn_if_isolated(steer_cpus: &[usize], ic: &ImageConfig, host: &HostCpus) -> (r: Vec<String>)
    ensures
        strings(r@) == isolation_warnings(steer_cpus@, isolated_cpus(*ic, *host)),
{
    let isolated = get_isolated_cpus(ic, host);
    let mut r: Vec<String> = Vec::new();
    let mut i: usize = 0;
    assert(strings(r@) =~= Seq::<Seq<char>>::empty());
    while i < steer_cpus.len()
        invariant
            isolated@ == isolated_cpus(*ic, *host),
            i <= steer_cpus@.len(),
            strings(r@) == isolation_warnings(steer_cpus@.take(i as int), isolated@),
        decreases steer_cpus@.len() - i,
    {
        let cpu: usize = steer_cpus[i];
        assert(steer_cpus@.take(i + 1).drop_last() =~= steer_cpus@.take(i as int));
        if isolated.contains(&cpu) {
            let ghost before = strings(r@);
            r.push(
                "CPU ".to_owned().concat(print_usize(cpu).as_str()).concat(
                    " is isolated, but specified in steer_irq! Redirecting IRQs to an isolated CPU may compromise real-time performance.",
                ),
            );
            assert(strings(r@) =~= before.push(isolation_warning(cpu)));
        }
        i = i + 1;
    }
    assert(steer_cpus@.take(i as int) =~= steer_cpus@);
    r
}

// ---------------------------------------------------------------------------
// What holds of CPU lists and target CPUs
// ---------------------------------------------------------------------------

/// A range names the CPUs from its first to its last, both included, and none if they are swapped.
pub proof fn law_a_range_names_what_lies_in_it(first: usize, last: usize)
    ensures
        cpulist(digits(first as nat) + seq!['-'] + digits(last as nat)) == Set::new(
            |cpu: usize| first <= cpu && cpu <= last,
        ),
{
    let a = digits(first as nat);
    let b = digits(last as nat);
    let s = a + seq!['-'] + b;
    lemma_digits(first as nat);
    lemma_digits(last as nat);
    assert(is_digit(a[0]) && is_digit(b.last()) && is_digit(a.last()) && is_digit(b[0]));
    assert(s[0] == a[0] && s.last() == b.last());
    lemma_trimmed_is_same(s);
    lemma_trimmed_is_same(a);
    lemma_trimmed_is_same(b);
    assert forall|j: int| 0 <= j < s.len() implies s[j] != ',' by {
        if j < a.len() {
            assert(is_digit(a[j]));
        } else if j > a.len() {
            assert(is_digit(b[j - a.len() - 1]));
        }
    }
    lemma_find_is(s, ',', s.len() as int);
    let pieces = split_at_each(s, ',');
    assert(pieces =~= seq![s]);
    assert forall|j: int| 0 <= j < a.len() implies s[j] != '-' by {
        assert(is_digit(a[j]));
    }
    lemma_find_is(s, '-', a.len() as int);
    assert(s.take(a.len() as int) =~= a);
    assert(s.skip(a.len() as int + 1) =~= b);
    law_parse_inverts_print(first as nat, usize::MAX as nat);
    law_parse_inverts_print(last as nat, usize::MAX as nat);
    assert(piece_bounds(s) == Some((first as nat, last as nat)));
    let range = Set::new(|cpu: usize| first <= cpu && cpu <= last);
    assert forall|cpu: usize| cpulist(s).contains(cpu) <==> range.contains(cpu) by {
        if range.contains(cpu) {
            assert(names_cpu(pieces[0], cpu));
        }
    }
    assert(cpulist(s) =~= range);
}

/// Two lists with a comma between them name what either names, and whitespace behind the comma does
/// not count.
pub proof fn law_lists_add_up(s: Seq<char>, pad: Seq<char>, t: Seq<char>)
    requires
        is_blank(pad),
        trimmed(s) == s,
        trimmed(t) == t,
        t.len() > 0,
    ensures
        cpulist(s + seq![','] + (pad + t)) == cpulist(s).union(cpulist(t)),
{
    let whole = s + seq![','] + (pad + t);
    lemma_trimmed_edges(s);
    lemma_trimmed_edges(t);
    assert(whole.last() == t.last());
    if s.len() > 0 {
        assert(whole[0] == s[0]);
    } else {
        assert(whole[0] == ',');
    }
    lemma_trimmed_is_same(whole);
    lemma_split_append(s, pad + t, ',');
    lemma_split_pad(pad, t);
    let a = split_at_each(s, ',');
    let b = split_at_each(pad + t, ',');
    let c = split_at_each(t, ',');
    law_split_comes_together(t, ',');
    let all = split_at_each(whole, ',');
    assert(all =~= a + b);
    lemma_pad_names(pad, c[0]);
    assert forall|cpu: usize| cpulist(whole).contains(cpu) <==> cpulist(s).union(
        cpulist(t),
    ).contains(cpu) by {
        if cpulist(whole).contains(cpu) {
            let i = choose|i: int| 0 <= i < all.len() && names_cpu(#[trigger] all[i], cpu);
            if i < a.len() {
                assert(names_cpu(a[i], cpu));
            } else {
                assert(b[i - a.len()] == all[i]);
                assert(names_cpu(c[i - a.len()], cpu));
            }
        }
        if cpulist(s).contains(cpu) {
            let i = choose|i: int| 0 <= i < a.len() && names_cpu(#[trigger] a[i], cpu);
            assert(names_cpu(all[i], cpu));
        }
        if cpulist(t).contains(cpu) {
            let i = choose|i: int| 0 <= i < c.len() && names_cpu(#[trigger] c[i], cpu);
            assert(all[i + a.len()] == b[i]);
            assert(names_cpu(all[i + a.len()], cpu));
        }
    }
    assert(cpulist(whole) =~= cpulist(s).union(cpulist(t)));
}

/// Whitespace in front of a piece does not change what it names.
proof fn lemma_pad_names(pad: Seq<char>, piece: Seq<char>)
    requires
        is_blank(pad),
    ensures
        forall|cpu: usize| names_cpu(pad + piece, cpu) == names_cpu(piece, cpu),
{
    lemma_trim_front_pad(pad, piece);
    assert(trimmed(pad + piece) == trimmed(piece));
}

/// Whitespace in front of a list stands in front of its first piece.
proof fn lemma_split_pad(pad: Seq<char>, t: Seq<char>)
    requires
        is_blank(pad),
    ensures
        ({
            let b = split_at_each(pad + t, ',');
            let c = split_at_each(t, ',');
            &&& b.len() == c.len()
            &&& c.len() > 0
            &&& b[0] == pad + c[0]
            &&& forall|i: int| 0 < i < c.len() ==> b[i] == c[i]
        }),
{
    lemma_find(t, ',');
    let i = find(t, ',');
    let s = pad + t;
    assert forall|j: int| 0 <= j < pad.len() + i implies s[j] != ',' by {
        if j < pad.len() {
            assert(is_space(pad[j]));
        } else {
            assert(s[j] == t[j - pad.len()]);
        }
    }
    lemma_find_is(s, ',', pad.len() + i);
    if i < t.len() {
        assert(s.take(pad.len() + i) =~= pad + t.take(i));
        assert(s.skip(pad.len() + i + 1) =~= t.skip(i + 1));
    }
}

/// Whitespace around a list does not count.
pub proof fn law_lists_are_trimmed(before: Seq<char>, s: Seq<char>, after: Seq<char>)
    requires
        is_blank(before),
        is_blank(after),
        trimmed(s) == s,
    ensures
        cpulist(before + s + after) == cpulist(s),
{
    lemma_trimmed_edges(s);
    law_trimming(before, s, after);
}

/// A piece that is neither a number nor a range of two numbers names no CPU.
pub proof fn law_other_pieces_name_nothing(piece: Seq<char>, first: Seq<char>, last: Seq<char>)
    requires
        forall|j: int| 0 <= j < piece.len() ==> piece[j] != ',' && piece[j] != '-',
        forall|j: int| 0 <= j < first.len() ==> first[j] != ',' && first[j] != '-',
        forall|j: int| 0 <= j < last.len() ==> last[j] != ',',
        trimmed(piece) == piece,
        trimmed(first) == first,
        trimmed(last) == last,
        first.len() > 0,
        last.len() > 0,
    ensures
        number(piece, usize::MAX as nat) is Err ==> cpulist(piece) == Set::<usize>::empty(),
        number(first, usize::MAX as nat) is Err || number(last, usize::MAX as nat) is Err ==> cpulist(
            first + seq!['-'] + last,
        ) == Set::<usize>::empty(),
{
    lemma_find_is(piece, ',', piece.len() as int);
    lemma_find_is(piece, '-', piece.len() as int);
    assert(split_at_each(piece, ',') =~= seq![piece]);
    if number(piece, usize::MAX as nat) is Err {
        assert(cpulist(piece) =~= Set::<usize>::empty());
    }
    let s = first + seq!['-'] + last;
    lemma_trimmed_edges(first);
    lemma_trimmed_edges(last);
    assert(s[0] == first[0] && s.last() == last.last());
    lemma_trimmed_is_same(s);
    assert forall|j: int| 0 <= j < s.len() implies s[j] != ',' by {
        if j < first.len() {
            assert(s[j] == first[j]);
        } else if j > first.len() {
            assert(s[j] == last[j - first.len() - 1]);
        }
    }
    lemma_find_is(s, ',', s.len() as int);
    assert(split_at_each(s, ',') =~= seq![s]);
    assert forall|j: int| 0 <= j < first.len() implies s[j] != '-' by {
        assert(s[j] == first[j]);
    }
    lemma_find_is(s, '-', first.len() as int);
    assert(s.take(first.len() as int) =~= first);
    assert(s.skip(first.len() as int + 1) =~= last);
    if number(first, usize::MAX as nat) is Err || number(last, usize::MAX as nat) is Err {
        assert(cpulist(s) =~= Set::<usize>::empty());
    }
}

/// A printed list is the decimal numbers of its CPUs in their order, with a comma between two.
pub proof fn law_printed_list(cpus: Seq<usize>, cpu: usize)
    ensures
        cpulist_text(seq![cpu]) == digits(cpu as nat),
        cpus.len() > 0 ==> cpulist_text(cpus.push(cpu)) == cpulist_text(cpus) + seq![','] + digits(
            cpu as nat,
        ),
{
    reveal_strlit(",");
    assert(","@ =~= seq![',']);
    let f = |cpu: usize| digits(cpu as nat);
    assert(seq![cpu].map_values(f) =~= seq![digits(cpu as nat)]);
    assert(cpus.push(cpu).map_values(f) =~= cpus.map_values(f) + seq![digits(cpu as nat)]);
    law_joining(cpus.map_values(f), seq![digits(cpu as nat)], ","@);
    law_joining(seq![digits(cpu as nat)], Seq::empty(), ","@);
}

/// A CPU is isolated if the host isolates it, or runs it without a tick, or the image says either;
/// what one of them says takes nothing away from the others.
pub proof fn law_isolated_cpus(ic: ImageConfig, host: HostCpus, cpu: usize)
    ensures
        isolated_cpus(ic, host).contains(cpu) <==> {
            ||| host.isolated matches Some(s) && cpulist(s@).contains(cpu)
            ||| host.nohz_full matches Some(s) && cpulist(s@).contains(cpu)
            ||| cpulist(ic.isolcpu@).contains(cpu)
            ||| cpulist(ic.nohz_full@).contains(cpu)
        },
{
}

/// Interrupts go to the CPUs of the image, all of them and in its order, if it names any, whatever
/// else the image says. Otherwise they go to those of the container that are numbers, in their
/// order. Where neither names a CPU, nothing is steered.
pub proof fn law_target_cpus(fc: FrontendConfig, ic: ImageConfig)
    ensures
        ({
            let given = member(json_of(fc.jsonconfig), "steer_irq"@);
            let numbers = if given is List {
                given->List_0.filter(|j: Json| j is PosInt).map_values(
                    |j: Json| j->PosInt_0 as usize,
                )
            } else {
                Seq::empty()
            };
            let image = ic.steer_irq matches Some(cpus) && cpus@.len() > 0;
            &&& image ==> steer_targets(fc, ic) == Some(ic.steer_irq->Some_0@)
            &&& !image && numbers.len() > 0 ==> steer_targets(fc, ic) == Some(numbers)
            &&& !image && numbers.len() == 0 ==> steer_targets(fc, ic) is None
        }),
{
    let given = member(json_of(fc.jsonconfig), "steer_irq"@);
    if let Json::List(items) = given {
        lemma_cpu_ids(items);
    }
}

proof fn lemma_cpu_ids(items: Seq<Json>)
    ensures
        cpu_ids(items) == items.filter(|j: Json| j is PosInt).map_values(
            |j: Json| j->PosInt_0 as usize,
        ),
    decreases items.len(),
{
    let p = |j: Json| j is PosInt;
    let f = |j: Json| j->PosInt_0 as usize;
    reveal(Seq::filter);
    if items.len() > 0 {
        lemma_cpu_ids(items.drop_last());
        assert(cpu_ids(items) =~= items.filter(p).map_values(f));
    } else {
        assert(cpu_ids(items) =~= items.filter(p).map_values(f));
    }
}

/// There is one warning for each target CPU that is isolated, in the order of the targets, and it
/// names that CPU.
pub proof fn law_isolated_targets_are_warned_of(cpus: Seq<usize>, isolated: Set<usize>)
    ensures
        isolation_warnings(cpus, isolated) == cpus.filter(
            |cpu: usize| isolated.contains(cpu),
        ).map_values(
            |cpu: usize|
                "CPU "@ + digits(cpu as nat)
                    + " is isolated, but specified in steer_irq! Redirecting IRQs to an isolated CPU may compromise real-time performance."@,
        ),
    decreases cpus.len(),
{
    let p = |cpu: usize| isolated.contains(cpu);
    let f = |cpu: usize|
        "CPU "@ + digits(cpu as nat)
            + " is isolated, but specified in steer_irq! Redirecting IRQs to an isolated CPU may compromise real-time performance."@;
    reveal(Seq::filter);
    if cpus.len() > 0 {
        law_isolated_targets_are_warned_of(cpus.drop_last(), isolated);
    }
    assert(isolation_warnings(cpus, isolated) =~= cpus.filter(p).map_values(f));
}

/// A number names one CPU, and two numbers with a `-` between them name those from the first to the
/// last, in whatever way the numbers are written and whatever whitespace surrounds them.
pub proof fn law_numbers_and_ranges(
    piece: Seq<char>,
    first: Seq<char>,
    gap: Seq<char>,
    space: Seq<char>,
    last: Seq<char>,
    cpu: usize,
)
    requires
        forall|j: int| 0 <= j < piece.len() ==> piece[j] != ',' && piece[j] != '-',
        forall|j: int| 0 <= j < first.len() ==> first[j] != ',' && first[j] != '-',
        forall|j: int| 0 <= j < last.len() ==> last[j] != ',',
        is_blank(gap) && is_blank(space),
        trimmed(piece) == piece,
        trimmed(first) == first,
        trimmed(last) == last,
        first.len() > 0,
        last.len() > 0,
    ensures
        number(piece, usize::MAX as nat) matches Ok(n) ==> (cpulist(piece).contains(cpu) <==> cpu
            == n),
        number(first, usize::MAX as nat) matches Ok(a) ==> (number(last, usize::MAX as nat) matches Ok(
            b,
        ) ==> (cpulist((first + gap) + seq!['-'] + (space + last)).contains(cpu) <==> a <= cpu
            <= b)),
{
    lemma_find_is(piece, ',', piece.len() as int);
    lemma_find_is(piece, '-', piece.len() as int);
    let alone = split_at_each(piece, ',');
    assert(alone =~= seq![piece]);
    if number(piece, usize::MAX as nat) is Ok {
        assert(names_cpu(alone[0], cpu) <==> cpu == number(piece, usize::MAX as nat)->Ok_0);
    }
    let a = first + gap;
    let b = space + last;
    let s = a + seq!['-'] + b;
    lemma_trimmed_edges(first);
    lemma_trimmed_edges(last);
    assert(s[0] == first[0] && s.last() == last.last());
    lemma_trimmed_is_same(s);
    assert forall|j: int| 0 <= j < a.len() implies s[j] != ',' && s[j] != '-' by {
        if j < first.len() {
            assert(s[j] == first[j]);
        } else {
            assert(s[j] == gap[j - first.len()]);
            assert(is_space(gap[j - first.len()]));
        }
    }
    assert forall|j: int| 0 <= j < s.len() implies s[j] != ',' by {
        if j > a.len() + space.len() {
            assert(s[j] == last[j - a.len() - 1 - space.len()]);
        } else if j > a.len() {
            assert(s[j] == space[j - a.len() - 1]);
            assert(is_space(space[j - a.len() - 1]));
        }
    }
    lemma_find_is(s, ',', s.len() as int);
    let pieces = split_at_each(s, ',');
    assert(pieces =~= seq![s]);
    lemma_find_is(s, '-', a.len() as int);
    assert(s.take(a.len() as int) =~= a);
    assert(s.skip(a.len() as int + 1) =~= b);
    law_trimming(Seq::empty(), first, gap);
    assert(Seq::<char>::empty() + first + gap =~= a);
    law_trimming(space, last, Seq::empty());
    assert(space + last + Seq::<char>::empty() =~= b);
    if number(first, usize::MAX as nat) is Ok && number(last, usize::MAX as nat) is Ok {
        let from = number(first, usize::MAX as nat)->Ok_0;
        let to = number(last, usize::MAX as nat)->Ok_0;
        assert(piece_bounds(pieces[0]) == Some((from, to)));
        assert(names_cpu(pieces[0], cpu) <==> from <= cpu <= to);
    }
}

}
