//! The line formatter: the blocks that are present, in the fixed source
//! order, joined by the divider, each one followed by the style-reset token.

use vstd::prelude::*;

use crate::widget::{render_spec, Block, BlockView};

verus! {

/// The fixed divider between rendered blocks.
pub open spec fn divider_text() -> Seq<char> {
    "     |     "@
}

/// The fixed style-reset token appended after every rendered block.
pub open spec fn reset_text() -> Seq<char> {
    "^d^"@
}

pub fn divider_str() -> (r: &'static str)
    ensures
        r@ == divider_text(),
{
    "     |     "
}

pub fn reset_str() -> (r: &'static str)
    ensures
        r@ == reset_text(),
{
    "^d^"
}

/// The blocks of the samples that are present, in sample order.
pub open spec fn present_blocks(samples: Seq<Option<BlockView>>) -> Seq<BlockView>
    decreases samples.len(),
{
    if samples.len() == 0 {
        Seq::empty()
    } else {
        present_blocks(samples.drop_last()) + match samples.last() {
            Some(b) => seq![b],
            None => Seq::empty(),
        }
    }
}

/// Blocks joined with the divider, each one followed by the reset token.
pub open spec fn joined(blocks: Seq<BlockView>) -> Seq<char>
    decreases blocks.len(),
{
    if blocks.len() == 0 {
        Seq::empty()
    } else if blocks.len() == 1 {
        render_spec(blocks[0]) + reset_text()
    } else {
        joined(blocks.drop_last()) + divider_text() + render_spec(blocks.last()) + reset_text()
    }
}

/// The whole line for an ordered sequence of optional samples.
pub open spec fn line_spec(samples: Seq<Option<BlockView>>) -> Seq<char> {
    joined(present_blocks(samples))
}

proof fn lemma_present_insert_none(samples: Seq<Option<BlockView>>, i: int)
    requires
        0 <= i <= samples.len(),
    ensures
        present_blocks(samples.insert(i, None)) == present_blocks(samples),
    decreases samples.len(),
{
    let t = samples.insert(i, None);
    if i == samples.len() {
        assert(t.drop_last() =~= samples);
        assert(t.last() is None);
        assert(present_blocks(t) =~= present_blocks(samples));
    } else {
        assert(t.drop_last() =~= samples.drop_last().insert(i, None));
        assert(t.last() == samples.last());
        lemma_present_insert_none(samples.drop_last(), i);
        assert(present_blocks(t) =~= present_blocks(samples));
    }
}

/// Absence filtering: a sample that is absent contributes nothing, so
/// inserting it anywhere leaves the rendered line unchanged.
pub proof fn lemma_absent_ignored(samples: Seq<Option<BlockView>>, i: int)
    requires
        0 <= i <= samples.len(),
    ensures
        line_spec(samples.insert(i, None)) == line_spec(samples),
{
    lemma_present_insert_none(samples, i);
}

/// Joins the present samples' renderings in order, with the divider
/// between neighbours and the reset token after every one.
pub fn format_line(samples: &Vec<Option<Block>>) -> (r: String)
    ensures
        r@ == line_spec(samples.deep_view()),
{
    let ghost dv = samples.deep_view();
    let mut r = String::new();
    let mut first = true;
    let mut i: usize = 0;
    proof {
        assert(dv.take(0) =~= Seq::<Option<BlockView>>::empty());
        assert(present_blocks(dv.take(0)) =~= Seq::<BlockView>::empty());
    }
    while i < samples.len()
        invariant
            0 <= i <= samples@.len(),
            dv == samples.deep_view(),
            dv.len() == samples@.len(),
            forall|k: int| 0 <= k < samples@.len() ==> dv[k] == (#[trigger] samples@[k]).deep_view(),
            r@ == joined(present_blocks(dv.take(i as int))),
            first == (present_blocks(dv.take(i as int)).len() == 0),
        decreases samples@.len() - i,
    {
        let ghost prev = present_blocks(dv.take(i as int));
        match &samples[i] {
            Some(b) => {
                if !first {
                    r.append(divider_str());
                }
                let rendered = b.render();
                r.append(rendered.as_str());
                r.append(reset_str());
                first = false;
                proof {
                    assert(dv.take(i + 1).drop_last() =~= dv.take(i as int));
                    assert(dv.take(i + 1).last() == dv[i as int]);
                    assert(present_blocks(dv.take(i + 1)) =~= prev.push(b@));
                    if prev.len() == 0 {
                        assert(r@ =~= joined(seq![b@]));
                        assert(seq![b@] =~= prev.push(b@));
                    } else {
                        assert(prev.push(b@).drop_last() =~= prev);
                        assert(r@ =~= joined(prev.push(b@)));
                    }
                }
            },
            None => {
                proof {
                    assert(dv.take(i + 1).drop_last() =~= dv.take(i as int));
                    assert(dv.take(i + 1).last() == dv[i as int]);
                    assert(present_blocks(dv.take(i + 1)) =~= prev);
                }
            },
        }
        i = i + 1;
    }
    proof {
        assert(dv.take(samples@.len() as int) =~= dv);
    }
    r
}

/// One aggregation cycle's line: the six sources in their fixed order.
pub fn status_line(
    song: Option<Block>,
    volume: Option<Block>,
    headset: Option<Block>,
    power: Option<Block>,
    cpu: Option<Block>,
    clock: Option<Block>,
) -> (r: String)
    ensures
        r@ == line_spec(
            seq![
                song.deep_view(),
                volume.deep_view(),
                headset.deep_view(),
                power.deep_view(),
                cpu.deep_view(),
                clock.deep_view(),
            ],
        ),
{
    let mut samples: Vec<Option<Block>> = Vec::new();
    samples.push(song);
    samples.push(volume);
    samples.push(headset);
    samples.push(power);
    samples.push(cpu);
    samples.push(clock);
    let r = format_line(&samples);
    proof {
        assert(samples.deep_view() =~= seq![
            samples@[0].deep_view(),
            samples@[1].deep_view(),
            samples@[2].deep_view(),
            samples@[3].deep_view(),
            samples@[4].deep_view(),
            samples@[5].deep_view(),
        ]);
    }
    r
}

} // verus!
