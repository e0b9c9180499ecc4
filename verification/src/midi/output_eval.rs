use vstd::prelude::*;

verus! {

/// Scene index that a MIDI value `value` (0..=127) selects when the value
/// range is spread evenly over `scene_count > 0` scenes.
pub open spec fn spec_distributed_index(value: int, scene_count: int) -> int {
    ((value + 1) * scene_count - 1) / 128
}

/// The smallest MIDI value at or above `from` that selects `index`, or 128
/// when there is none.
pub open spec fn first_value_selecting(index: int, scene_count: int, from: int) -> int
    decreases 128 - from,
{
    if from > 127 || from < 0 {
        128
    } else if spec_distributed_index(from, scene_count) == index {
        from
    } else {
        first_value_selecting(index, scene_count, from + 1)
    }
}

/// The last MIDI value of the run of consecutive values, starting at `from`,
/// that all select `index`.
pub open spec fn last_value_of_run(index: int, scene_count: int, from: int) -> int
    decreases 127 - from,
{
    if from < 127 && from >= 0 && spec_distributed_index(from + 1, scene_count) == index {
        last_value_of_run(index, scene_count, from + 1)
    } else {
        from
    }
}

/// The MIDI value that stands for scene `index` among `scene_count` scenes:
/// the middle of the values that select it, or, where no value selects it,
/// the index scaled linearly onto 0..=127.
pub open spec fn spec_value_for_index(index: int, scene_count: int) -> int {
    if scene_count == 0 {
        0
    } else {
        let first = first_value_selecting(index, scene_count, 0);
        if first <= 127 {
            (first + last_value_of_run(index, scene_count, first)) / 2
        } else if scene_count <= 1 {
            0
        } else {
            (if index < scene_count - 1 { index } else { scene_count - 1 }) * 127 / (scene_count - 1)
        }
    }
}

/// The output value of an on/off binding.
pub open spec fn spec_binary_output_value(active: bool, active_value: u8) -> u8 {
    if active { active_value } else { 0 }
}

/// `active_value` when `active`, else 0.
pub fn binary_output_value(active: bool, active_value: u8) -> (r: u8)
    ensures
        r == spec_binary_output_value(active, active_value),
{
    if active {
        active_value
    } else {
        0
    }
}

/// The scene index selected by MIDI value `value`; `None` when there are no
/// scenes.
pub fn distributed_scene_index_from_midi(value: u8, scene_count: usize) -> (r: Option<usize>)
    requires
        scene_count <= usize::MAX / 256,
    ensures
        scene_count == 0 ==> r is None,
        scene_count > 0 ==> r is Some && r->0 as int == spec_distributed_index(
            value as int,
            scene_count as int,
        ) && (value <= 127 ==> r->0 < scene_count),
{
    if scene_count == 0 {
        return None;
    }
    proof {
        if value <= 127 {
            law_distributed_index_in_range(value as int, scene_count as int);
        }
        vstd::arithmetic::mul::lemma_mul_inequality(value as int + 1, 256, scene_count as int);
        vstd::arithmetic::mul::lemma_mul_inequality(1, value as int + 1, scene_count as int);
    }
    let product: usize = (value as usize + 1) * scene_count;
    Some(product.saturating_sub(1) / 128)
}

proof fn lemma_index_monotone(v: int, w: int, c: int)
    requires
        0 <= v <= w,
        c > 0,
    ensures
        spec_distributed_index(v, c) <= spec_distributed_index(w, c),
{
    vstd::arithmetic::mul::lemma_mul_inequality(v + 1, w + 1, c);
    vstd::arithmetic::div_mod::lemma_div_is_ordered((v + 1) * c - 1, (w + 1) * c - 1, 128);
}

proof fn lemma_index_step(v: int, c: int)
    requires
        0 <= v,
        0 < c <= 128,
    ensures
        spec_distributed_index(v + 1, c) <= spec_distributed_index(v, c) + 1,
{
    let x = (v + 1) * c - 1;
    assert((v + 2) * c - 1 == x + c) by (nonlinear_arith)
        requires
            x == (v + 1) * c - 1,
    ;
    assert(x >= 0) by (nonlinear_arith)
        requires
            v >= 0,
            c > 0,
            x == (v + 1) * c - 1,
    ;
    vstd::arithmetic::div_mod::lemma_div_is_ordered(x + c, x + 128, 128);
    vstd::arithmetic::div_mod::lemma_hoist_over_denominator(x, 1, 128);
}

proof fn lemma_index_range(c: int)
    requires
        0 < c <= 128,
    ensures
        spec_distributed_index(0, c) == 0,
        spec_distributed_index(127, c) == c - 1,
{
    assert(128 * c - 1 == 128 * (c - 1) + 127) by (nonlinear_arith);
    vstd::arithmetic::div_mod::lemma_div_multiples_vanish_fancy(c - 1, 127, 128);
}

/// Every index in `0..c` is selected by some value at or below `k`, when
/// `k` selects at least that index.
proof fn lemma_reachable_below(index: int, c: int, k: int)
    requires
        0 < c <= 128,
        0 <= index,
        0 <= k <= 127,
        spec_distributed_index(k, c) >= index,
    ensures
        exists|v: int| 0 <= v <= k && spec_distributed_index(v, c) == index,
    decreases k,
{
    lemma_index_range(c);
    if spec_distributed_index(k, c) == index {
        assert(spec_distributed_index(k, c) == index);
    } else {
        lemma_index_step(k - 1, c);
        lemma_reachable_below(index, c, k - 1);
        let v = choose|v: int| 0 <= v <= k - 1 && spec_distributed_index(v, c) == index;
        assert(0 <= v <= k && spec_distributed_index(v, c) == index);
    }
}

proof fn lemma_first_found(index: int, c: int, from: int, v: int)
    requires
        0 <= from <= v <= 127,
        spec_distributed_index(v, c) == index,
    ensures
        from <= first_value_selecting(index, c, from) <= v,
        spec_distributed_index(first_value_selecting(index, c, from), c) == index,
    decreases v - from,
{
    if spec_distributed_index(from, c) != index {
        lemma_first_found(index, c, from + 1, v);
    }
}

proof fn lemma_first_skips(index: int, c: int, from: int, to: int)
    requires
        0 <= from <= to <= 128,
        forall|u: int| from <= u < to ==> spec_distributed_index(u, c) != index,
    ensures
        first_value_selecting(index, c, from) == first_value_selecting(index, c, to),
    decreases to - from,
{
    if from < to {
        lemma_first_skips(index, c, from + 1, to);
    }
}

proof fn lemma_run_bounds(index: int, c: int, from: int)
    requires
        0 <= from <= 127,
        c > 0,
        spec_distributed_index(from, c) == index,
    ensures
        from <= last_value_of_run(index, c, from) <= 127,
        spec_distributed_index(last_value_of_run(index, c, from), c) == index,
    decreases 127 - from,
{
    if from < 127 && spec_distributed_index(from + 1, c) == index {
        lemma_run_bounds(index, c, from + 1);
    }
}

proof fn lemma_run_end(index: int, c: int, from: int, last: int)
    requires
        0 <= from <= last <= 127,
        forall|u: int| from <= u <= last ==> spec_distributed_index(u, c) == index,
        last == 127 || spec_distributed_index(last + 1, c) != index,
    ensures
        last_value_of_run(index, c, from) == last,
    decreases last - from,
{
    if from < last {
        lemma_run_end(index, c, from + 1, last);
    }
}

/// The MIDI value that represents scene `index`: the middle of the values
/// that select it, or a linear fallback when no value selects it.
pub fn value_for_distributed_scene_index(index: usize, scene_count: usize) -> (r: u8)
    requires
        scene_count <= usize::MAX / 256,
    ensures
        r as int == spec_value_for_index(index as int, scene_count as int),
{
    if scene_count == 0 {
        return 0;
    }
    let mut value: u16 = 0;
    while value <= 127
        invariant
            0 < scene_count <= usize::MAX / 256,
            0 <= value <= 128,
            first_value_selecting(index as int, scene_count as int, 0)
                == first_value_selecting(index as int, scene_count as int, value as int),
        decreases 128 - value,
    {
        let selected = distributed_scene_index_from_midi(value as u8, scene_count);
        if selected == Some(index) {
            let mut last: u16 = value;
            while last < 127
                invariant_except_break
                    0 < scene_count <= usize::MAX / 256,
                    value <= last <= 127,
                    forall|u: int| value <= u <= last
                        ==> spec_distributed_index(u, scene_count as int) == index,
                ensures
                    value <= last <= 127,
                    forall|u: int| value <= u <= last
                        ==> spec_distributed_index(u, scene_count as int) == index,
                    last == 127 || spec_distributed_index(last + 1, scene_count as int) != index,
                decreases 127 - last,
            {
                let s = distributed_scene_index_from_midi((last + 1) as u8, scene_count);
                if s == Some(index) {
                    last = last + 1;
                } else {
                    break;
                }
            }
            proof {
                lemma_run_end(index as int, scene_count as int, value as int, last as int);
            }
            return ((value + last) / 2) as u8;
        }
        proof {
            lemma_first_skips(index as int, scene_count as int, value as int, value as int + 1);
        }
        value = value + 1;
    }
    if scene_count <= 1 {
        return 0;
    }
    let clamped: usize = if index < scene_count - 1 { index } else { scene_count - 1 };
    proof {
        vstd::arithmetic::mul::lemma_mul_inequality(clamped as int, scene_count as int, 127);
        vstd::arithmetic::div_mod::lemma_div_is_ordered(
            clamped as int * 127, (scene_count as int - 1) * 127, scene_count as int - 1);
        vstd::arithmetic::div_mod::lemma_div_multiples_vanish(127, scene_count as int - 1);
        assert((scene_count as int - 1) * 127 == (scene_count as int - 1) * 127);
    }
    ((clamped * 127) / (scene_count - 1)) as u8
}

/// Round trip: with at most 128 scenes, the value chosen for a scene
/// selects that scene again.
pub proof fn law_distributed_value_round_trip(index: int, scene_count: int)
    requires
        0 < scene_count <= 128,
        0 <= index < scene_count,
    ensures
        0 <= spec_value_for_index(index, scene_count) <= 127,
        spec_distributed_index(spec_value_for_index(index, scene_count), scene_count) == index,
{
    lemma_index_range(scene_count);
    lemma_index_monotone(0, 127, scene_count);
    lemma_reachable_below(index, scene_count, 127);
    let v = choose|v: int| 0 <= v <= 127 && spec_distributed_index(v, scene_count) == index;
    lemma_first_found(index, scene_count, 0, v);
    let first = first_value_selecting(index, scene_count, 0);
    lemma_run_bounds(index, scene_count, first);
    let last = last_value_of_run(index, scene_count, first);
    let mid = (first + last) / 2;
    lemma_index_monotone(first, mid, scene_count);
    lemma_index_monotone(mid, last, scene_count);
}

/// Every value selects an index below the scene count.
pub proof fn law_distributed_index_in_range(value: int, scene_count: int)
    requires
        0 <= value <= 127,
        0 < scene_count,
    ensures
        0 <= spec_distributed_index(value, scene_count) < scene_count,
{
    assert((value + 1) * scene_count - 1 < 128 * scene_count) by (nonlinear_arith)
        requires
            0 <= value <= 127,
            0 < scene_count,
    ;
    assert((value + 1) * scene_count - 1 >= 0) by (nonlinear_arith)
        requires
            0 <= value,
            0 < scene_count,
    ;
    vstd::arithmetic::div_mod::lemma_div_is_ordered(
        (value + 1) * scene_count - 1, 128 * scene_count - 1, 128);
    assert(128 * scene_count - 1 == 128 * (scene_count - 1) + 127) by (nonlinear_arith);
    vstd::arithmetic::div_mod::lemma_div_multiples_vanish_fancy(scene_count - 1, 127, 128);
}

} // verus!
