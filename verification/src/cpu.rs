//! CPU load from the kernel's aggregate counter text. The first line whose
//! prefix is `cpu` carries at least eight whitespace-separated counters; the
//! fourth and fifth (idle and io-wait) are inactive time, the rest of the sum
//! is active time. Two consecutive snapshots are differenced and the active
//! share of the elapsed window is rendered as a percentage with two
//! fractional digits. Any parse failure, and a window in which the counters
//! did not grow consistently, yields absence rather than a fault.

use vstd::arithmetic::div_mod::{lemma_div_is_ordered, lemma_div_multiples_vanish_fancy};
use vstd::arithmetic::mul::{lemma_mul_inequality, lemma_mul_is_commutative};
use vstd::prelude::*;

use crate::text::{
    all_digits, dec_str, dec_val, has_prefix, pad2_str, parse_u64, split_char, split_spaces,
    split_spaces_str, split_str, str_has_prefix, u64_to_pad2, u64_to_string,
};
use crate::widget::{plain_block, plain_style, Block};

verus! {

/// One snapshot of the aggregate counters: the sum of all fields, and the
/// sum of all fields less idle and io-wait.
#[derive(Clone, Copy)]
pub struct CpuStat {
    pub total_ticks: i64,
    pub active_ticks: i64,
}

/// Mathematical model of a [`CpuStat`].
pub struct CpuStatView {
    pub total: int,
    pub active: int,
}

impl View for CpuStat {
    type V = CpuStatView;

    open spec fn view(&self) -> CpuStatView {
        CpuStatView { total: self.total_ticks as int, active: self.active_ticks as int }
    }
}

/// The first element with the given prefix, if any.
pub open spec fn first_with_prefix(ls: Seq<Seq<char>>, p: Seq<char>) -> Option<Seq<char>>
    decreases ls.len(),
{
    if ls.len() == 0 {
        None
    } else if has_prefix(ls[0], p) {
        Some(ls[0])
    } else {
        first_with_prefix(ls.drop_first(), p)
    }
}

proof fn lemma_fwp_skip(ls: Seq<Seq<char>>, p: Seq<char>, j: int)
    requires
        0 <= j <= ls.len(),
        forall|k: int| 0 <= k < j ==> !has_prefix(#[trigger] ls[k], p),
    ensures
        first_with_prefix(ls.skip(j), p) == first_with_prefix(ls, p),
    decreases j,
{
    if j == 0 {
        assert(ls.skip(0) =~= ls);
    } else {
        assert(!has_prefix(ls[0], p));
        let t = ls.drop_first();
        assert forall|k: int| 0 <= k < j - 1 implies !has_prefix(#[trigger] t[k], p) by {
            assert(t[k] == ls[k + 1]);
        }
        lemma_fwp_skip(t, p, j - 1);
        assert(t.skip(j - 1) =~= ls.skip(j));
    }
}

/// Index of the first string with the given prefix.
pub fn find_prefixed(lines: &Vec<String>, p: &str) -> (r: Option<usize>)
    ensures
        match r {
            Some(j) => j < lines@.len() && first_with_prefix(lines.deep_view(), p@) == Some(
                lines.deep_view()[j as int],
            ),
            None => first_with_prefix(lines.deep_view(), p@) is None,
        },
{
    let ghost dv = lines.deep_view();
    let mut j: usize = 0;
    while j < lines.len()
        invariant
            0 <= j <= lines@.len(),
            dv == lines.deep_view(),
            dv.len() == lines@.len(),
            forall|k: int| 0 <= k < lines@.len() ==> dv[k] == (#[trigger] lines@[k])@,
            forall|k: int| 0 <= k < j ==> !has_prefix(#[trigger] dv[k], p@),
        decreases lines@.len() - j,
    {
        if str_has_prefix(lines[j].as_str(), p) {
            proof {
                lemma_fwp_skip(dv, p@, j as int);
                let t = dv.skip(j as int);
                assert(t[0] == dv[j as int]);
                assert(first_with_prefix(t, p@) == Some(dv[j as int]));
            }
            return Some(j);
        }
        j = j + 1;
    }
    proof {
        lemma_fwp_skip(dv, p@, dv.len() as int);
        assert(dv.skip(dv.len() as int) =~= Seq::<Seq<char>>::empty());
    }
    None
}

/// The parts that are nonempty, in order.
pub open spec fn nonempty_parts(parts: Seq<Seq<char>>) -> Seq<Seq<char>>
    decreases parts.len(),
{
    if parts.len() == 0 {
        Seq::empty()
    } else if parts.last().len() > 0 {
        nonempty_parts(parts.drop_last()) + seq![parts.last()]
    } else {
        nonempty_parts(parts.drop_last())
    }
}

/// The whitespace-separated fields of a line.
pub open spec fn tokens_of(line: Seq<char>) -> Seq<Seq<char>> {
    nonempty_parts(split_spaces(line))
}

/// Splits a line into its nonempty whitespace-separated fields.
pub fn tokens_of_str(line: &str) -> (r: Vec<String>)
    ensures
        r.deep_view() == tokens_of(line@),
{
    let parts = split_spaces_str(line);
    let ghost pv = parts.deep_view();
    let mut toks: Vec<String> = Vec::new();
    proof {
        assert(pv.take(0) =~= Seq::<Seq<char>>::empty());
        assert(toks.deep_view() =~= nonempty_parts(pv.take(0)));
    }
    let mut k: usize = 0;
    while k < parts.len()
        invariant
            0 <= k <= parts@.len(),
            pv == parts.deep_view(),
            pv.len() == parts@.len(),
            forall|m: int| 0 <= m < parts@.len() ==> pv[m] == (#[trigger] parts@[m])@,
            toks.deep_view() =~= nonempty_parts(pv.take(k as int)),
        decreases parts@.len() - k,
    {
        let ghost prev = toks.deep_view();
        if !parts[k].as_str().is_empty() {
            toks.push(parts[k].clone());
            proof {
                assert(toks.deep_view() =~= prev.push(pv[k as int]));
            }
        }
        proof {
            assert(pv.take(k + 1).drop_last() =~= pv.take(k as int));
            assert(pv.take(k + 1).last() == pv[k as int]);
            assert(toks.deep_view() =~= nonempty_parts(pv.take(k + 1)));
        }
        k = k + 1;
    }
    proof {
        assert(pv.take(parts@.len() as int) =~= pv);
    }
    toks
}

/// Sum of the numeric values of the fields.
pub open spec fn sum_vals(toks: Seq<Seq<char>>) -> nat
    decreases toks.len(),
{
    if toks.len() == 0 {
        0
    } else {
        sum_vals(toks.drop_last()) + dec_val(toks.last())
    }
}

proof fn lemma_sum_prefix_le(toks: Seq<Seq<char>>, j: int)
    requires
        0 <= j <= toks.len(),
    ensures
        sum_vals(toks.take(j)) <= sum_vals(toks),
    decreases toks.len() - j,
{
    if j == toks.len() {
        assert(toks.take(j) =~= toks);
    } else {
        assert(toks.take(j + 1).drop_last() =~= toks.take(j));
        assert(toks.take(j + 1).last() == toks[j]);
        lemma_sum_prefix_le(toks, j + 1);
    }
}

proof fn lemma_sum_elem_le(toks: Seq<Seq<char>>, i: int)
    requires
        0 <= i < toks.len(),
    ensures
        dec_val(toks[i]) <= sum_vals(toks),
    decreases toks.len(),
{
    if i == toks.len() - 1 {
    } else {
        lemma_sum_elem_le(toks.drop_last(), i);
        assert(toks.drop_last()[i] == toks[i]);
    }
}

proof fn lemma_sum_pair_le(toks: Seq<Seq<char>>, i: int, j: int)
    requires
        0 <= i < j < toks.len(),
    ensures
        dec_val(toks[i]) + dec_val(toks[j]) <= sum_vals(toks),
    decreases toks.len(),
{
    if j == toks.len() - 1 {
        lemma_sum_elem_le(toks.drop_last(), i);
        assert(toks.drop_last()[i] == toks[i]);
    } else {
        lemma_sum_pair_le(toks.drop_last(), i, j);
        assert(toks.drop_last()[i] == toks[i]);
        assert(toks.drop_last()[j] == toks[j]);
    }
}

/// Every counter field is a nonempty digit string whose value fits.
pub open spec fn counters_ok(cs: Seq<Seq<char>>) -> bool {
    forall|i: int|
        0 <= i < cs.len() ==> (#[trigger] cs[i]).len() > 0 && all_digits(cs[i]) && dec_val(cs[i])
            <= u64::MAX
}

/// The snapshot that the counter text denotes, if it parses: the first line
/// with prefix `cpu`, its fields after the label, at least eight of them, all
/// numeric, with a representable sum; the fourth and fifth fields are the
/// inactive time.
pub open spec fn cpu_stat_of(text: Seq<char>) -> Option<CpuStatView> {
    match first_with_prefix(split_char(text, '\n'), "cpu"@) {
        None => None,
        Some(line) => {
            let toks = tokens_of(line);
            if toks.len() < 9 {
                None
            } else {
                let cs = toks.drop_first();
                if !counters_ok(cs) {
                    None
                } else if sum_vals(cs) > i64::MAX {
                    None
                } else {
                    Some(
                        CpuStatView {
                            total: sum_vals(cs) as int,
                            active: sum_vals(cs) - (dec_val(cs[3]) + dec_val(cs[4])),
                        },
                    )
                }
            }
        },
    }
}

impl CpuStat {
    /// Parses one counter-file snapshot; absence on any malformed input.
    #[verifier::loop_isolation(false)]
    pub fn parse(text: &str) -> (r: Option<CpuStat>)
        ensures
            match r {
                Some(st) => cpu_stat_of(text@) == Some(st@),
                None => cpu_stat_of(text@) is None,
            },
    {
        let lines = split_str(text, '\n');
        let j = match find_prefixed(&lines, "cpu") {
            Some(j) => j,
            None => {
                return None;
            },
        };
        let toks = tokens_of_str(lines[j].as_str());
        let ghost tv = toks.deep_view();
        proof {
            assert(lines.deep_view()[j as int] == lines@[j as int]@);
            assert(first_with_prefix(split_char(text@, '\n'), "cpu"@) == Some(
                lines@[j as int]@,
            ));
            assert(tv == tokens_of(lines@[j as int]@));
        }
        if toks.len() < 9 {
            return None;
        }
        let ghost cs = tv.drop_first();
        let mut sum: u64 = 0;
        let mut v3: u64 = 0;
        let mut v4: u64 = 0;
        let mut i: usize = 1;
        while i < toks.len()
            invariant
                1 <= i <= toks@.len(),
                toks@.len() >= 9,
                tv == toks.deep_view(),
                tv.len() == toks@.len(),
                cs == tv.drop_first(),
                forall|m: int| 0 <= m < toks@.len() ==> tv[m] == (#[trigger] toks@[m])@,
                forall|m: int|
                    0 <= m < i - 1 ==> (#[trigger] cs[m]).len() > 0 && all_digits(cs[m]) && dec_val(
                        cs[m],
                    ) <= u64::MAX,
                sum as nat == sum_vals(cs.take(i - 1)),
                i > 4 ==> v3 as nat == dec_val(cs[3]),
                i > 5 ==> v4 as nat == dec_val(cs[4]),
            decreases toks@.len() - i,
        {
            let v = match parse_u64(toks[i].as_str()) {
                Some(v) => v,
                None => {
                    proof {
                        assert(cs[i - 1] == tv[i as int]);
                        assert(!counters_ok(cs));
                    }
                    return None;
                },
            };
            proof {
                assert(cs[i - 1] == tv[i as int]);
                assert(cs.take(i as int).drop_last() =~= cs.take(i - 1));
                assert(cs.take(i as int).last() == cs[i - 1]);
            }
            sum = match sum.checked_add(v) {
                Some(s) => s,
                None => {
                    proof {
                        assert(sum_vals(cs.take(i as int)) > u64::MAX);
                        lemma_sum_prefix_le(cs, i as int);
                        assert(sum_vals(cs) > i64::MAX);
                    }
                    return None;
                },
            };
            if i == 4 {
                v3 = v;
            }
            if i == 5 {
                v4 = v;
            }
            i = i + 1;
        }
        proof {
            assert(cs.take(toks@.len() - 1) =~= cs);
            assert(counters_ok(cs));
        }
        if sum > i64::MAX as u64 {
            return None;
        }
        proof {
            lemma_sum_pair_le(cs, 3, 4);
        }
        let inactive = v3 + v4;
        let st = CpuStat {
            total_ticks: sum as i64,
            active_ticks: (sum - inactive) as i64,
        };
        Some(st)
    }
}

/// Hundredths of a percent of the window spent active: the two snapshots'
/// deltas are differenced field for field (the design takes them previous
/// minus current; both deltas here are negated, which leaves the ratio
/// unchanged), the active share is scaled to a four-digit value, and the
/// value is rounded to the nearest hundredth, halves upward.
pub open spec fn load_hundredths(prev: CpuStatView, cur: CpuStatView) -> int {
    ((cur.active - prev.active) * 10000 + (cur.total - prev.total) / 2) / (cur.total - prev.total)
}

/// A usable window: the counters grew, and the active delta lies within the
/// total delta. Counter resets and reorderings yield absence instead.
pub open spec fn window_ok(prev: CpuStatView, cur: CpuStatView) -> bool {
    cur.total - prev.total > 0 && 0 <= cur.active - prev.active <= cur.total - prev.total
}

/// `"12.34 %"` for a value of hundredths of a percent.
pub open spec fn percent_text(h: nat) -> Seq<char> {
    dec_str(h / 100) + seq!['.'] + pad2_str(h % 100) + seq![' ', '%']
}

/// Renders hundredths of a percent with two fractional digits.
pub fn percent_string(h: u64) -> (r: String)
    ensures
        r@ == percent_text(h as nat),
{
    let mut r = u64_to_string(h / 100);
    r.append(".");
    r.append(u64_to_pad2(h % 100).as_str());
    r.append(" %");
    proof {
        reveal_strlit(".");
        reveal_strlit(" %");
        assert(h as nat / 100 == (h / 100) as nat);
        assert(h as nat % 100 == (h % 100) as nat);
        assert(r@ =~= percent_text(h as nat));
    }
    r
}

/// The CPU load source: keeps the previous snapshot between calls.
pub struct Cpu {
    pub last: Option<CpuStat>,
    pub icon: String,
}

impl Cpu {
    /// A source with no snapshot yet: its first sample is absence.
    pub fn new(icon: &str) -> (r: Cpu)
        ensures
            r.last is None,
            r.icon@ == icon@,
    {
        Cpu { last: None, icon: icon.to_owned() }
    }

    /// One sampling step on the given counter text. The retained snapshot is
    /// replaced whenever the text parses; the sample is present exactly when
    /// there was a previous snapshot and the window between the two is
    /// usable, and then carries the active share as a percentage.
    pub fn update(&mut self, text: &str) -> (r: Option<Block>)
        ensures
            final(self).icon == old(self).icon,
            match cpu_stat_of(text@) {
                None => final(self).last == old(self).last && r is None,
                Some(cur) => {
                    &&& final(self).last matches Some(st) && st@ == cur
                    &&& match old(self).last {
                        None => r is None,
                        Some(prev) => {
                            if window_ok(prev@, cur) {
                                &&& r matches Some(b)
                                &&& b@.icon == old(self).icon@
                                &&& b@.text == percent_text(load_hundredths(prev@, cur) as nat)
                                &&& b@.color == plain_style()
                            } else {
                                r is None
                            }
                        },
                    }
                },
            },
    {
        let cur = match CpuStat::parse(text) {
            Some(st) => st,
            None => {
                return None;
            },
        };
        let prev_opt = self.last;
        self.last = Some(cur);
        let prev = match prev_opt {
            Some(prev) => prev,
            None => {
                return None;
            },
        };
        let dt = cur.total_ticks as i128 - prev.total_ticks as i128;
        let da = cur.active_ticks as i128 - prev.active_ticks as i128;
        if dt <= 0 || da < 0 || da > dt {
            return None;
        }
        let dau = da as u128;
        let dtu = dt as u128;
        let h128 = (dau * 10000 + dtu / 2) / dtu;
        proof {
            let dai = dau as int;
            let dti = dtu as int;
            lemma_mul_inequality(dai, dti, 10000);
            lemma_div_is_ordered(dai * 10000 + dti / 2, dti * 10000 + dti / 2, dti);
            lemma_div_multiples_vanish_fancy(10000, dti / 2, dti);
            assert(dti * 10000 + dti / 2 == 10000 * dti + dti / 2) by {
                lemma_mul_is_commutative(dti, 10000);
            }
            assert((dti * 10000 + dti / 2) / dti == 10000);
            assert(h128 <= 10000);
            assert(h128 as int == load_hundredths(prev@, cur@));
        }
        let h = h128 as u64;
        Some(plain_block(self.icon.as_str(), percent_string(h).as_str()))
    }
}

} // verus!
