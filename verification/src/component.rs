//! The metric sources' pure halves: each one turns the plain values its
//! collaborator read into an optional block. Reading files, running the
//! volume executable, and talking to the bus stay outside; absence is the
//! outcome for every malformed input.

use vstd::prelude::*;

use crate::text::{
    all_digits, collect_digits, contains_str, dec_str, dec_val, digits_of, has_sub, join_spec,
    join_strs, parse_u64, split_char, split_str, str_eq, trim_spec, trim_str, u64_to_string,
};
use crate::color::ColorView;
use crate::widget::{plain_block, plain_style, Block, BlockView};

verus! {

/// The icon shown while discharging.
pub open spec fn discharge_icon() -> Seq<char> {
    "\u{f240}"@
}

/// The icon shown while charging or in any other reported state.
pub open spec fn charge_icon() -> Seq<char> {
    "\u{f584}"@
}

/// The power block for a capacity text and a status text: the capacity must
/// be an unsigned number within the signed 32-bit domain the collaborator's
/// format carries — a signed, larger or otherwise malformed value yields
/// absence — and exactly the status `Discharging` selects the discharge
/// icon; every other status string, even a malformed one, selects the
/// charging icon.
pub open spec fn battery_of(capacity: Seq<char>, status: Seq<char>) -> Option<BlockView> {
    if capacity.len() > 0 && all_digits(capacity) && dec_val(capacity) <= 2147483647 {
        Some(
            BlockView {
                icon: if status == "Discharging"@ {
                    discharge_icon()
                } else {
                    charge_icon()
                },
                text: dec_str(dec_val(capacity)) + " %"@,
                color: plain_style(),
            },
        )
    } else {
        None
    }
}

/// Power source: builds the block from the two texts the collaborator read,
/// absent when the capacity does not parse.
pub fn battery(capacity: &str, status: &str) -> (r: Option<Block>)
    ensures
        r.deep_view() == battery_of(capacity@, status@),
{
    let value = match parse_u64(capacity) {
        Some(v) => v,
        None => {
            return None;
        },
    };
    if value > 2147483647 {
        return None;
    }
    let icon = if str_eq(status, "Discharging") {
        "\u{f240}"
    } else {
        "\u{f584}"
    };
    let mut text = u64_to_string(value);
    text.append(" %");
    let b = plain_block(icon, text.as_str());
    proof {
        assert(b@.text =~= dec_str(dec_val(capacity@)) + " %"@);
    }
    Some(b)
}

/// Volume source: the executable's trimmed output, verbatim, with a percent
/// sign. Always present once the collaborator produced any output text.
pub fn sound_volume(raw: &str) -> (r: Option<Block>)
    ensures
        r matches Some(b) && b@.icon == "\u{f028}"@ && b@.text == trim_spec(raw@) + "%"@
            && b@.color == plain_style(),
{
    let mut text = trim_str(raw);
    text.append("%");
    Some(plain_block("\u{f028}", text.as_str()))
}

/// The last element that contains the pattern, if any.
pub open spec fn last_containing(ls: Seq<Seq<char>>, pat: Seq<char>) -> Option<Seq<char>>
    decreases ls.len(),
{
    if ls.len() == 0 {
        None
    } else if has_sub(ls.last(), pat) {
        Some(ls.last())
    } else {
        last_containing(ls.drop_last(), pat)
    }
}

proof fn lemma_last_containing_none(ls: Seq<Seq<char>>, pat: Seq<char>)
    requires
        forall|k: int| 0 <= k < ls.len() ==> !has_sub(#[trigger] ls[k], pat),
    ensures
        last_containing(ls, pat) is None,
    decreases ls.len(),
{
    if ls.len() > 0 {
        lemma_last_containing_none(ls.drop_last(), pat);
    }
}

proof fn lemma_last_containing_at(ls: Seq<Seq<char>>, pat: Seq<char>, k: int)
    requires
        0 <= k < ls.len(),
        has_sub(ls[k], pat),
        forall|m: int| k < m < ls.len() ==> !has_sub(#[trigger] ls[m], pat),
    ensures
        last_containing(ls, pat) == Some(ls[k]),
    decreases ls.len(),
{
    if k == ls.len() - 1 {
    } else {
        lemma_last_containing_at(ls.drop_last(), pat, k);
    }
}

/// The first element that contains the pattern, if any.
pub open spec fn first_containing(ls: Seq<Seq<char>>, pat: Seq<char>) -> Option<Seq<char>>
    decreases ls.len(),
{
    if ls.len() == 0 {
        None
    } else if has_sub(ls[0], pat) {
        Some(ls[0])
    } else {
        first_containing(ls.drop_first(), pat)
    }
}

proof fn lemma_first_containing_none(ls: Seq<Seq<char>>, pat: Seq<char>)
    requires
        forall|k: int| 0 <= k < ls.len() ==> !has_sub(#[trigger] ls[k], pat),
    ensures
        first_containing(ls, pat) is None,
    decreases ls.len(),
{
    if ls.len() > 0 {
        let t = ls.drop_first();
        assert forall|k: int| 0 <= k < t.len() implies !has_sub(#[trigger] t[k], pat) by {
            assert(t[k] == ls[k + 1]);
        }
        lemma_first_containing_none(t, pat);
    }
}

proof fn lemma_first_containing_at(ls: Seq<Seq<char>>, pat: Seq<char>, k: int)
    requires
        0 <= k < ls.len(),
        has_sub(ls[k], pat),
        forall|m: int| 0 <= m < k ==> !has_sub(#[trigger] ls[m], pat),
    ensures
        first_containing(ls, pat) == Some(ls[k]),
    decreases k,
{
    if k == 0 {
    } else {
        let t = ls.drop_first();
        assert forall|m: int| 0 <= m < k - 1 implies !has_sub(#[trigger] t[m], pat) by {
            assert(t[m] == ls[m + 1]);
        }
        assert(t[k - 1] == ls[k]);
        lemma_first_containing_at(t, pat, k - 1);
    }
}

/// The first line of the enumeration output that mentions the headset, if
/// any: the device whose details are then queried — the same selection rule
/// the bus-based poller uses.
pub fn headset_device(enum_output: &str) -> (r: Option<String>)
    ensures
        r.deep_view() == first_containing(split_char(enum_output@, '\n'), "headset"@),
{
    let lines = split_str(enum_output, '\n');
    let ghost dv = lines.deep_view();
    proof {
        assert forall|m: int| 0 <= m < lines@.len() implies dv[m] == (#[trigger] lines@[m])@ by {}
    }
    match find_containing(&lines, "headset") {
        Some(j) => {
            proof {
                lemma_first_containing_at(dv, "headset"@, j as int);
            }
            Some(lines[j].clone())
        },
        None => {
            proof {
                lemma_first_containing_none(dv, "headset"@);
            }
            None
        },
    }
}

/// The headset battery block that a details text denotes: the digits of the
/// last line that mentions a percentage — when several lines do, the last
/// one wins — absent when there is no such line or it carries no digits.
pub open spec fn headset_battery_of(info: Seq<char>) -> Option<BlockView> {
    match last_containing(split_char(info, '\n'), "percentage"@) {
        None => None,
        Some(line) => {
            if digits_of(line).len() == 0 {
                None
            } else {
                Some(
                    BlockView {
                        icon: "\u{f7cc}"@,
                        text: digits_of(line) + "%"@,
                        color: plain_style(),
                    },
                )
            }
        },
    }
}

/// Headset battery source over the device-details text: the percentage
/// digits of the last line that mentions one.
#[verifier::loop_isolation(false)]
pub fn headset_battery(info: &str) -> (r: Option<Block>)
    ensures
        r.deep_view() == headset_battery_of(info@),
{
    let lines = split_str(info, '\n');
    let ghost dv = lines.deep_view();
    let mut k: usize = lines.len();
    while k > 0
        invariant
            0 <= k <= lines@.len(),
            dv == lines.deep_view(),
            dv.len() == lines@.len(),
            forall|m: int| 0 <= m < lines@.len() ==> dv[m] == (#[trigger] lines@[m])@,
            forall|m: int| k <= m < lines@.len() ==> !has_sub(#[trigger] dv[m], "percentage"@),
        decreases k,
    {
        k = k - 1;
        if contains_str(lines[k].as_str(), "percentage") {
            proof {
                lemma_last_containing_at(dv, "percentage"@, k as int);
            }
            let digits = collect_digits(lines[k].as_str());
            if digits.as_str().is_empty() {
                return None;
            }
            let mut text = digits;
            text.append("%");
            return Some(plain_block("\u{f7cc}", text.as_str()));
        }
    }
    proof {
        lemma_last_containing_none(dv, "percentage"@);
    }
    None
}

/// The first element that contains the pattern.
#[verifier::loop_isolation(false)]
pub fn find_containing(items: &Vec<String>, pat: &str) -> (r: Option<usize>)
    ensures
        match r {
            Some(j) => j < items@.len() && has_sub(items@[j as int]@, pat@) && forall|k: int|
                0 <= k < j ==> !has_sub(#[trigger] items@[k]@, pat@),
            None => forall|k: int| 0 <= k < items@.len() ==> !has_sub(#[trigger] items@[k]@, pat@),
        },
{
    let mut j: usize = 0;
    while j < items.len()
        invariant
            0 <= j <= items@.len(),
            forall|k: int| 0 <= k < j ==> !has_sub(#[trigger] items@[k]@, pat@),
        decreases items@.len() - j,
    {
        if contains_str(items[j].as_str(), pat) {
            return Some(j);
        }
        j = j + 1;
    }
    None
}

/// Cuts to the character budget, marking the cut with an ellipsis; anything
/// at or under the budget passes through unchanged.
pub fn truncate_chars(s: &str, budget: usize) -> (r: String)
    ensures
        r@ == if s@.len() > budget {
            s@.take(budget as int) + "..."@
        } else {
            s@
        },
{
    let n = s.unicode_len();
    if n > budget {
        let mut r = s.substring_char(0, budget).to_owned();
        r.append("...");
        r
    } else {
        s.to_owned()
    }
}

/// The style of the media block: the one source with its own backgrounds.
pub open spec fn song_style() -> ColorView {
    ColorView {
        fg: Some("#EAEAEA"@),
        bg: Some("#171617"@),
        icon_fg: Some("#EAEAEA"@),
        icon_bg: Some("#0C0C0C"@),
    }
}

/// The media text before truncation: the artists joined by spaces — or
/// `Anonymous` when there are none — then a dash, then the title, padded
/// with one space on each side.
pub open spec fn song_text(artists: Seq<Seq<char>>, title: Seq<char>) -> Seq<char> {
    " "@ + (if join_spec(artists, " "@).len() == 0 {
        "Anonymous"@
    } else {
        join_spec(artists, " "@)
    }) + " - "@ + title + " "@
}

/// The character budget of the media text.
pub open spec fn song_budget() -> nat {
    40
}

/// Media source: artist list and title into one block, the text cut to the
/// fixed budget with an ellipsis when it is longer.
pub fn song_info(artists: &Vec<String>, title: &str) -> (r: Option<Block>)
    ensures
        r matches Some(b) && b@.icon == " \u{f885}"@ && b@.color == song_style() && b@.text == (
        if song_text(artists.deep_view(), title@).len() > song_budget() {
            song_text(artists.deep_view(), title@).take(song_budget() as int) + "..."@
        } else {
            song_text(artists.deep_view(), title@)
        }),
{
    let joined = join_strs(artists, " ");
    let mut base = " ".to_owned();
    if joined.as_str().is_empty() {
        base.append("Anonymous");
    } else {
        base.append(joined.as_str());
    }
    base.append(" - ");
    base.append(title);
    base.append(" ");
    proof {
        assert(base@ =~= song_text(artists.deep_view(), title@));
    }
    let text = truncate_chars(base.as_str(), 40);
    let b = Block::new(" \u{f885}", text.as_str())
        .icon_color("#EAEAEA", "#0C0C0C")
        .text_color("#EAEAEA", "#171617");
    proof {
        assert(b@.color == song_style());
    }
    Some(b)
}

} // verus!
