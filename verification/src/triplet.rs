//! Target triplet parser.
//!
//! A target triplet names the CPU, the manufacturer and the machine a ROM
//! is built for, with an optional variant: `rp2A03-nintendo-nes-ntsc`.

use vstd::prelude::*;
use crate::text::{chars_of, push_char, push_str, string_of};

verus! {

/// The pieces of a text cut at each `-`, as `str::split('-')` gives them.
pub open spec fn split_dash(s: Seq<char>) -> Seq<Seq<char>>
    decreases s.len(),
{
    if s.len() == 0 {
        seq![Seq::empty()]
    } else {
        let p = split_dash(s.drop_last());
        if s.last() == '-' {
            p.push(Seq::empty())
        } else {
            p.update(p.len() - 1, p.last().push(s.last()))
        }
    }
}

/// Pieces joined with `-` between them.
pub open spec fn join_dash(p: Seq<Seq<char>>) -> Seq<char>
    decreases p.len(),
{
    if p.len() == 0 {
        Seq::empty()
    } else if p.len() == 1 {
        p[0]
    } else {
        join_dash(p.drop_last()) + seq!['-'] + p.last()
    }
}

/// A text is a well-formed triplet when it has three or four `-`-separated
/// components and none of them is empty.
pub open spec fn well_formed_triplet(s: Seq<char>) -> bool {
    let p = split_dash(s);
    &&& (p.len() == 3 || p.len() == 4)
    &&& forall|i: int| 0 <= i < p.len() ==> (#[trigger] p[i]).len() > 0
}

/// A parsed target triplet. `variant` is empty when the text has three
/// components.
#[derive(Debug)]
pub struct TargetTriplet {
    pub cpu: String,
    pub manufacturer: String,
    pub machine: String,
    pub variant: String,
}

/// Errors from parsing a triplet.
#[derive(Debug)]
pub enum TripletError {
    /// The text is not a triplet; it holds the text.
    Malformed(String),
}

proof fn lemma_split_nonempty(s: Seq<char>)
    ensures
        split_dash(s).len() >= 1,
    decreases s.len(),
{
    if s.len() > 0 {
        lemma_split_nonempty(s.drop_last());
    }
}

/// Every piece is free of `-`.
proof fn lemma_split_no_dash(s: Seq<char>)
    ensures
        forall|i: int, k: int|
            0 <= i < split_dash(s).len() && 0 <= k < split_dash(s)[i].len() ==> split_dash(
                s,
            )[i][k] != '-',
    decreases s.len(),
{
    lemma_split_nonempty(s);
    if s.len() > 0 {
        lemma_split_no_dash(s.drop_last());
        lemma_split_nonempty(s.drop_last());
    }
}

/// Joining the pieces gives the text back.
pub proof fn lemma_join_split(s: Seq<char>)
    ensures
        join_dash(split_dash(s)) == s,
    decreases s.len(),
{
    if s.len() == 0 {
        assert(join_dash(split_dash(s)) =~= s);
    } else {
        let t = s.drop_last();
        lemma_join_split(t);
        lemma_split_nonempty(t);
        let p = split_dash(t);
        if s.last() == '-' {
            let q = p.push(Seq::empty());
            assert(q.drop_last() =~= p);
            assert(join_dash(q) =~= t + seq!['-']);
            assert(s =~= t + seq!['-']);
        } else {
            let q = p.update(p.len() - 1, p.last().push(s.last()));
            if p.len() == 1 {
                assert(join_dash(q) =~= p[0].push(s.last()));
                assert(s =~= t.push(s.last()));
            } else {
                assert(q.drop_last() =~= p.drop_last());
                assert(join_dash(q) == join_dash(p.drop_last()) + seq!['-'] + p.last().push(s.last()));
                assert(join_dash(q) =~= join_dash(p) + seq![s.last()]);
                assert(s =~= t.push(s.last()));
            }
        }
    }
}

/// Splitting a join of non-empty dash-free pieces gives the pieces back.
pub proof fn lemma_split_join(p: Seq<Seq<char>>)
    requires
        p.len() >= 1,
        forall|i: int, k: int| 0 <= i < p.len() && 0 <= k < p[i].len() ==> p[i][k] != '-',
    ensures
        split_dash(join_dash(p)) == p,
    decreases p.len(), p.last().len(),
{
    if p.len() == 1 {
        lemma_split_single(p[0]);
        assert(seq![p[0]] =~= p);
    } else if p.last().len() == 0 {
        let q = p.drop_last();
        lemma_split_join(q);
        let s = join_dash(p);
        assert(s == join_dash(q) + seq!['-']);
        assert(s.drop_last() =~= join_dash(q));
        assert(p.last() =~= Seq::<char>::empty());
        assert(p =~= q.push(Seq::empty()));
    } else {
        let c = p.last().last();
        let q = p.update(p.len() - 1, p.last().drop_last());
        assert(q.drop_last() =~= p.drop_last());
        lemma_split_join(q);
        let s = join_dash(p);
        assert(s =~= join_dash(q).push(c));
        assert(s.drop_last() =~= join_dash(q));
        assert(p.last() =~= p.last().drop_last().push(c));
        assert(p =~= q.update(q.len() - 1, q.last().push(c)));
    }
}

proof fn lemma_split_single(w: Seq<char>)
    requires
        forall|k: int| 0 <= k < w.len() ==> w[k] != '-',
    ensures
        split_dash(w) == seq![w],
    decreases w.len(),
{
    if w.len() == 0 {
        assert(w =~= Seq::<char>::empty());
    } else {
        lemma_split_single(w.drop_last());
        assert(w.drop_last().push(w.last()) =~= w);
        assert(seq![w.drop_last()].update(0, w.drop_last().push(w.last())) =~= seq![w]);
    }
}

/// The pieces of a text cut at each `-`.
pub fn split_dashes(s: &str) -> (r: Vec<String>)
    ensures
        r@.map_values(|x: String| x@) == split_dash(s@),
{
    let cs = chars_of(s);
    let mut done: Vec<String> = Vec::new();
    let mut cur = String::new();
    let mut i: usize = 0;
    while i < cs.len()
        invariant
            cs@ == s@,
            i <= cs@.len(),
            done@.map_values(|x: String| x@).push(cur@) == split_dash(s@.take(i as int)),
        decreases cs@.len() - i,
    {
        let c = cs[i];
        let ghost before = done@.map_values(|x: String| x@).push(cur@);
        assert(s@.take(i + 1).drop_last() =~= s@.take(i as int));
        if c == '-' {
            let finished = cur;
            done.push(finished);
            cur = String::new();
            assert(done@.map_values(|x: String| x@).push(cur@) =~= before.push(Seq::empty()));
        } else {
            push_char(&mut cur, c);
            assert(done@.map_values(|x: String| x@).push(cur@) =~= before.update(
                before.len() - 1,
                before.last().push(c),
            ));
        }
        i = i + 1;
    }
    assert(s@.take(cs@.len() as int) =~= s@);
    done.push(cur);
    assert(done@.map_values(|x: String| x@) =~= split_dash(s@));
    done
}

/// The third `-`-separated component of a target, the machine, as
/// `split('-').nth(2)` gives it; empty when there is none.
pub open spec fn machine_of(t: Seq<char>) -> Seq<char> {
    if split_dash(t).len() >= 3 {
        split_dash(t)[2]
    } else {
        Seq::empty()
    }
}

/// The machine component of a target triplet text.
pub fn machine_name(t: &str) -> (r: String)
    ensures
        r@ == machine_of(t@),
{
    let mut parts = split_dashes(t);
    if parts.len() >= 3 {
        let ghost v = parts@.map_values(|x: String| x@);
        assert(v[2] == parts@[2]@);
        parts.swap_remove(2)
    } else {
        String::new()
    }
}

impl TargetTriplet {
    /// The components of this triplet, the variant only when non-empty.
    pub open spec fn components(self) -> Seq<Seq<char>> {
        if self.variant@.len() == 0 {
            seq![self.cpu@, self.manufacturer@, self.machine@]
        } else {
            seq![self.cpu@, self.manufacturer@, self.machine@, self.variant@]
        }
    }

    /// Parse a triplet `cpu-manufacturer-machine[-variant]`.
    pub fn parse(s: &str) -> (r: Result<TargetTriplet, TripletError>)
        ensures
            match r {
                Ok(t) => {
                    &&& well_formed_triplet(s@)
                    &&& t.cpu@ == split_dash(s@)[0]
                    &&& t.manufacturer@ == split_dash(s@)[1]
                    &&& t.machine@ == split_dash(s@)[2]
                    &&& t.variant@ == if split_dash(s@).len() == 4 {
                        split_dash(s@)[3]
                    } else {
                        Seq::<char>::empty()
                    }
                },
                Err(TripletError::Malformed(text)) => !well_formed_triplet(s@) && text@ == s@,
            },
    {
        let cs = chars_of(s);
        let mut done = split_dashes(s);
        let ghost parts = split_dash(s@);
        let n = done.len();
        assert(parts.len() == n);
        if n != 3 && n != 4 {
            return Err(TripletError::Malformed(string_of(cs.as_slice())));
        }
        let mut k: usize = 0;
        while k < n
            invariant
                n == done@.len(),
                done@.map_values(|x: String| x@) == parts,
                parts == split_dash(s@),
                cs@ == s@,
                k <= n,
                forall|j: int| 0 <= j < k ==> (#[trigger] parts[j]).len() > 0,
            decreases n - k,
        {
            assert(parts[k as int] == done@[k as int]@);
            if done[k].as_str().is_empty() {
                assert(parts[k as int].len() == 0);
                assert(!well_formed_triplet(s@));
                return Err(TripletError::Malformed(string_of(cs.as_slice())));
            }
            k = k + 1;
        }
        let variant = if n == 4 {
            done.pop().unwrap()
        } else {
            String::new()
        };
        let machine = done.pop().unwrap();
        let manufacturer = done.pop().unwrap();
        let cpu = done.pop().unwrap();
        Ok(TargetTriplet { cpu, manufacturer, machine, variant })
    }

    /// The triplet text: the components joined with `-`.
    pub fn as_str(&self) -> (r: String)
        ensures
            r@ == join_dash(self.components()),
    {
        let mut r = self.cpu.clone();
        push_char(&mut r, '-');
        push_str(&mut r, self.manufacturer.as_str());
        push_char(&mut r, '-');
        push_str(&mut r, self.machine.as_str());
        proof {
            let c1 = seq![self.cpu@];
            let c2 = seq![self.cpu@, self.manufacturer@];
            let c3 = seq![self.cpu@, self.manufacturer@, self.machine@];
            assert(c2.drop_last() =~= c1);
            assert(c3.drop_last() =~= c2);
            assert(join_dash(c1) == self.cpu@);
            assert(join_dash(c2) == self.cpu@ + seq!['-'] + self.manufacturer@);
            assert(join_dash(c3) == join_dash(c2) + seq!['-'] + self.machine@);
            assert(r@ =~= join_dash(c3));
        }
        if !self.variant.as_str().is_empty() {
            push_char(&mut r, '-');
            push_str(&mut r, self.variant.as_str());
            proof {
                let c4 = seq![self.cpu@, self.manufacturer@, self.machine@, self.variant@];
                assert(c4.drop_last() =~= seq![self.cpu@, self.manufacturer@, self.machine@]);
                assert(r@ =~= join_dash(c4));
            }
        }
        r
    }
}

/// Parsing a well-formed triplet and printing it gives the text back.
pub proof fn lemma_parse_print_roundtrip(s: Seq<char>, t: TargetTriplet)
    requires
        well_formed_triplet(s),
        t.cpu@ == split_dash(s)[0],
        t.manufacturer@ == split_dash(s)[1],
        t.machine@ == split_dash(s)[2],
        t.variant@ == if split_dash(s).len() == 4 {
            split_dash(s)[3]
        } else {
            Seq::<char>::empty()
        },
    ensures
        join_dash(t.components()) == s,
{
    let p = split_dash(s);
    lemma_join_split(s);
    if p.len() == 4 {
        assert(p[3].len() > 0);
        assert(t.components() =~= p);
    } else {
        assert(t.components() =~= p);
    }
}

/// Printing a triplet whose components are non-empty and free of `-` and
/// parsing the text gives the same components back.
pub proof fn lemma_print_parse_roundtrip(t: TargetTriplet)
    requires
        t.cpu@.len() > 0,
        t.manufacturer@.len() > 0,
        t.machine@.len() > 0,
        forall|i: int, k: int|
            0 <= i < t.components().len() && 0 <= k < t.components()[i].len()
                ==> t.components()[i][k] != '-',
    ensures
        split_dash(join_dash(t.components())) == t.components(),
        well_formed_triplet(join_dash(t.components())),
{
    lemma_split_join(t.components());
}

} // verus!
