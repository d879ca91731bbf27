//! Accumulator arithmetic: adding and removing feature rows.
//!
//! Accumulator lanes are 16-bit and PSQT lanes 32-bit; both wrap on overflow.
//! Each operation comes in place (`acc`), into a separate output (`_into`), or
//! into both the base and an output (`_into_both`).
use vstd::prelude::*;
use crate::arith::{wrap16, wrap32, truncate_to_i16, truncate_to_i32};

verus! {

pub fn accum_add(acc: &mut [i16], add: &[i16])
    requires
        add@.len() == old(acc)@.len(),
    ensures
        final(acc)@.len() == old(acc)@.len(),
        forall|i: int| 0 <= i < old(acc)@.len() ==> #[trigger] final(acc)@[i] == wrap16(old(acc)@[i] + add@[i]),
{
    let n = acc.len();
    let mut i: usize = 0;
    while i < n
        invariant
            n == acc@.len(),
            i <= n,
            add@.len() == n,
            acc@.len() == old(acc)@.len(),
            forall|j: int| 0 <= j < i ==> #[trigger] acc@[j] == wrap16(old(acc)@[j] + add@[j]),
            forall|j: int| i <= j < n ==> #[trigger] acc@[j] == old(acc)@[j],
        decreases n - i,
    {
        let value = truncate_to_i16(acc[i] as i64 + add[i] as i64);
        acc[i] = value;
        i = i + 1;
    }
}

pub fn accum_sub(acc: &mut [i16], sub: &[i16])
    requires
        sub@.len() == old(acc)@.len(),
    ensures
        final(acc)@.len() == old(acc)@.len(),
        forall|i: int| 0 <= i < old(acc)@.len() ==> #[trigger] final(acc)@[i] == wrap16(old(acc)@[i] - sub@[i]),
{
    let n = acc.len();
    let mut i: usize = 0;
    while i < n
        invariant
            n == acc@.len(),
            i <= n,
            sub@.len() == n,
            acc@.len() == old(acc)@.len(),
            forall|j: int| 0 <= j < i ==> #[trigger] acc@[j] == wrap16(old(acc)@[j] - sub@[j]),
            forall|j: int| i <= j < n ==> #[trigger] acc@[j] == old(acc)@[j],
        decreases n - i,
    {
        let value = truncate_to_i16(acc[i] as i64 - sub[i] as i64);
        acc[i] = value;
        i = i + 1;
    }
}

pub fn accum_add_sub(acc: &mut [i16], add: &[i16], sub: &[i16])
    requires
        add@.len() == old(acc)@.len(),
        sub@.len() == old(acc)@.len(),
    ensures
        final(acc)@.len() == old(acc)@.len(),
        forall|i: int| 0 <= i < old(acc)@.len() ==> #[trigger] final(acc)@[i] == wrap16(old(acc)@[i] + add@[i] - sub@[i]),
{
    let n = acc.len();
    let mut i: usize = 0;
    while i < n
        invariant
            n == acc@.len(),
            i <= n,
            add@.len() == n,
            sub@.len() == n,
            acc@.len() == old(acc)@.len(),
            forall|j: int| 0 <= j < i ==> #[trigger] acc@[j] == wrap16(old(acc)@[j] + add@[j] - sub@[j]),
            forall|j: int| i <= j < n ==> #[trigger] acc@[j] == old(acc)@[j],
        decreases n - i,
    {
        let value = truncate_to_i16(acc[i] as i64 + add[i] as i64 - sub[i] as i64);
        acc[i] = value;
        i = i + 1;
    }
}

pub fn accum_add_into_both(base: &mut [i16], add: &[i16], out: &mut [i16])
    requires
        add@.len() == old(base)@.len(),
        old(out)@.len() == old(base)@.len(),
    ensures
        final(base)@.len() == old(base)@.len(),
        final(out)@.len() == old(base)@.len(),
        forall|i: int| 0 <= i < old(base)@.len() ==> #[trigger] final(base)@[i] == wrap16(old(base)@[i] + add@[i]),
        forall|i: int| 0 <= i < old(base)@.len() ==> #[trigger] final(out)@[i] == final(base)@[i],
{
    let n = base.len();
    let mut i: usize = 0;
    while i < n
        invariant
            n == base@.len(),
            i <= n,
            add@.len() == n,
            out@.len() == n,
            base@.len() == old(base)@.len(),
            forall|j: int| 0 <= j < i ==> #[trigger] base@[j] == wrap16(old(base)@[j] + add@[j]),
            forall|j: int| 0 <= j < i ==> #[trigger] out@[j] == base@[j],
            forall|j: int| i <= j < n ==> #[trigger] base@[j] == old(base)@[j],
        decreases n - i,
    {
        let value = truncate_to_i16(base[i] as i64 + add[i] as i64);
        base[i] = value;
        out[i] = value;
        i = i + 1;
    }
}

pub fn accum_sub_into_both(base: &mut [i16], sub: &[i16], out: &mut [i16])
    requires
        sub@.len() == old(base)@.len(),
        old(out)@.len() == old(base)@.len(),
    ensures
        final(base)@.len() == old(base)@.len(),
        final(out)@.len() == old(base)@.len(),
        forall|i: int| 0 <= i < old(base)@.len() ==> #[trigger] final(base)@[i] == wrap16(old(base)@[i] - sub@[i]),
        forall|i: int| 0 <= i < old(base)@.len() ==> #[trigger] final(out)@[i] == final(base)@[i],
{
    let n = base.len();
    let mut i: usize = 0;
    while i < n
        invariant
            n == base@.len(),
            i <= n,
            sub@.len() == n,
            out@.len() == n,
            base@.len() == old(base)@.len(),
            forall|j: int| 0 <= j < i ==> #[trigger] base@[j] == wrap16(old(base)@[j] - sub@[j]),
            forall|j: int| 0 <= j < i ==> #[trigger] out@[j] == base@[j],
            forall|j: int| i <= j < n ==> #[trigger] base@[j] == old(base)@[j],
        decreases n - i,
    {
        let value = truncate_to_i16(base[i] as i64 - sub[i] as i64);
        base[i] = value;
        out[i] = value;
        i = i + 1;
    }
}

pub fn accum_add1_sub1_into(base: &[i16], add: &[i16], sub: &[i16], out: &mut [i16])
    requires
        add@.len() == base@.len(),
        sub@.len() == base@.len(),
        old(out)@.len() == base@.len(),
    ensures
        final(out)@.len() == base@.len(),
        forall|i: int| 0 <= i < base@.len() ==> #[trigger] final(out)@[i] == wrap16(base@[i] + add@[i] - sub@[i]),
{
    let n = base.len();
    let mut i: usize = 0;
    while i < n
        invariant
            n == base@.len(),
            i <= n,
            add@.len() == n,
            sub@.len() == n,
            out@.len() == n,
            forall|j: int| 0 <= j < i ==> #[trigger] out@[j] == wrap16(base@[j] + add@[j] - sub@[j]),
        decreases n - i,
    {
        let value = truncate_to_i16(base[i] as i64 + add[i] as i64 - sub[i] as i64);
        out[i] = value;
        i = i + 1;
    }
}

pub fn accum_add1_sub1_into_both(base: &mut [i16], add: &[i16], sub: &[i16], out: &mut [i16])
    requires
        add@.len() == old(base)@.len(),
        sub@.len() == old(base)@.len(),
        old(out)@.len() == old(base)@.len(),
    ensures
        final(base)@.len() == old(base)@.len(),
        final(out)@.len() == old(base)@.len(),
        forall|i: int| 0 <= i < old(base)@.len() ==> #[trigger] final(base)@[i] == wrap16(old(base)@[i] + add@[i] - sub@[i]),
        forall|i: int| 0 <= i < old(base)@.len() ==> #[trigger] final(out)@[i] == final(base)@[i],
{
    let n = base.len();
    let mut i: usize = 0;
    while i < n
        invariant
            n == base@.len(),
            i <= n,
            add@.len() == n,
            sub@.len() == n,
            out@.len() == n,
            base@.len() == old(base)@.len(),
            forall|j: int| 0 <= j < i ==> #[trigger] base@[j] == wrap16(old(base)@[j] + add@[j] - sub@[j]),
            forall|j: int| 0 <= j < i ==> #[trigger] out@[j] == base@[j],
            forall|j: int| i <= j < n ==> #[trigger] base@[j] == old(base)@[j],
        decreases n - i,
    {
        let value = truncate_to_i16(base[i] as i64 + add[i] as i64 - sub[i] as i64);
        base[i] = value;
        out[i] = value;
        i = i + 1;
    }
}

pub fn accum_add1_sub2_into(base: &[i16], add: &[i16], sub0: &[i16], sub1: &[i16], out: &mut [i16])
    requires
        add@.len() == base@.len(),
        sub0@.len() == base@.len(),
        sub1@.len() == base@.len(),
        old(out)@.len() == base@.len(),
    ensures
        final(out)@.len() == base@.len(),
        forall|i: int| 0 <= i < base@.len() ==> #[trigger] final(out)@[i] == wrap16(base@[i] + add@[i] - sub0@[i] - sub1@[i]),
{
    let n = base.len();
    let mut i: usize = 0;
    while i < n
        invariant
            n == base@.len(),
            i <= n,
            add@.len() == n,
            sub0@.len() == n,
            sub1@.len() == n,
            out@.len() == n,
            forall|j: int| 0 <= j < i ==> #[trigger] out@[j] == wrap16(base@[j] + add@[j] - sub0@[j] - sub1@[j]),
        decreases n - i,
    {
        let value = truncate_to_i16(base[i] as i64 + add[i] as i64 - sub0[i] as i64 - sub1[i] as i64);
        out[i] = value;
        i = i + 1;
    }
}

pub fn accum_add1_sub2_into_both(base: &mut [i16], add: &[i16], sub0: &[i16], sub1: &[i16], out: &mut [i16])
    requires
        add@.len() == old(base)@.len(),
        sub0@.len() == old(base)@.len(),
        sub1@.len() == old(base)@.len(),
        old(out)@.len() == old(base)@.len(),
    ensures
        final(base)@.len() == old(base)@.len(),
        final(out)@.len() == old(base)@.len(),
        forall|i: int| 0 <= i < old(base)@.len() ==> #[trigger] final(base)@[i] == wrap16(old(base)@[i] + add@[i] - sub0@[i] - sub1@[i]),
        forall|i: int| 0 <= i < old(base)@.len() ==> #[trigger] final(out)@[i] == final(base)@[i],
{
    let n = base.len();
    let mut i: usize = 0;
    while i < n
        invariant
            n == base@.len(),
            i <= n,
            add@.len() == n,
            sub0@.len() == n,
            sub1@.len() == n,
            out@.len() == n,
            base@.len() == old(base)@.len(),
            forall|j: int| 0 <= j < i ==> #[trigger] base@[j] == wrap16(old(base)@[j] + add@[j] - sub0@[j] - sub1@[j]),
            forall|j: int| 0 <= j < i ==> #[trigger] out@[j] == base@[j],
            forall|j: int| i <= j < n ==> #[trigger] base@[j] == old(base)@[j],
        decreases n - i,
    {
        let value = truncate_to_i16(base[i] as i64 + add[i] as i64 - sub0[i] as i64 - sub1[i] as i64);
        base[i] = value;
        out[i] = value;
        i = i + 1;
    }
}

pub fn accum_add2_sub1_into(base: &[i16], add0: &[i16], add1: &[i16], sub: &[i16], out: &mut [i16])
    requires
        add0@.len() == base@.len(),
        add1@.len() == base@.len(),
        sub@.len() == base@.len(),
        old(out)@.len() == base@.len(),
    ensures
        final(out)@.len() == base@.len(),
        forall|i: int| 0 <= i < base@.len() ==> #[trigger] final(out)@[i] == wrap16(base@[i] + add0@[i] + add1@[i] - sub@[i]),
{
    let n = base.len();
    let mut i: usize = 0;
    while i < n
        invariant
            n == base@.len(),
            i <= n,
            add0@.len() == n,
            add1@.len() == n,
            sub@.len() == n,
            out@.len() == n,
            forall|j: int| 0 <= j < i ==> #[trigger] out@[j] == wrap16(base@[j] + add0@[j] + add1@[j] - sub@[j]),
        decreases n - i,
    {
        let value = truncate_to_i16(base[i] as i64 + add0[i] as i64 + add1[i] as i64 - sub[i] as i64);
        out[i] = value;
        i = i + 1;
    }
}

pub fn accum_add2_sub1_into_both(base: &mut [i16], add0: &[i16], add1: &[i16], sub: &[i16], out: &mut [i16])
    requires
        add0@.len() == old(base)@.len(),
        add1@.len() == old(base)@.len(),
        sub@.len() == old(base)@.len(),
        old(out)@.len() == old(base)@.len(),
    ensures
        final(base)@.len() == old(base)@.len(),
        final(out)@.len() == old(base)@.len(),
        forall|i: int| 0 <= i < old(base)@.len() ==> #[trigger] final(base)@[i] == wrap16(old(base)@[i] + add0@[i] + add1@[i] - sub@[i]),
        forall|i: int| 0 <= i < old(base)@.len() ==> #[trigger] final(out)@[i] == final(base)@[i],
{
    let n = base.len();
    let mut i: usize = 0;
    while i < n
        invariant
            n == base@.len(),
            i <= n,
            add0@.len() == n,
            add1@.len() == n,
            sub@.len() == n,
            out@.len() == n,
            base@.len() == old(base)@.len(),
            forall|j: int| 0 <= j < i ==> #[trigger] base@[j] == wrap16(old(base)@[j] + add0@[j] + add1@[j] - sub@[j]),
            forall|j: int| 0 <= j < i ==> #[trigger] out@[j] == base@[j],
            forall|j: int| i <= j < n ==> #[trigger] base@[j] == old(base)@[j],
        decreases n - i,
    {
        let value = truncate_to_i16(base[i] as i64 + add0[i] as i64 + add1[i] as i64 - sub[i] as i64);
        base[i] = value;
        out[i] = value;
        i = i + 1;
    }
}

pub fn accum_add2_sub2_into(base: &[i16], add0: &[i16], add1: &[i16], sub0: &[i16], sub1: &[i16], out: &mut [i16])
    requires
        add0@.len() == base@.len(),
        add1@.len() == base@.len(),
        sub0@.len() == base@.len(),
        sub1@.len() == base@.len(),
        old(out)@.len() == base@.len(),
    ensures
        final(out)@.len() == base@.len(),
        forall|i: int| 0 <= i < base@.len() ==> #[trigger] final(out)@[i] == wrap16(base@[i] + add0@[i] + add1@[i] - sub0@[i] - sub1@[i]),
{
    let n = base.len();
    let mut i: usize = 0;
    while i < n
        invariant
            n == base@.len(),
            i <= n,
            add0@.len() == n,
            add1@.len() == n,
            sub0@.len() == n,
            sub1@.len() == n,
            out@.len() == n,
            forall|j: int| 0 <= j < i ==> #[trigger] out@[j] == wrap16(base@[j] + add0@[j] + add1@[j] - sub0@[j] - sub1@[j]),
        decreases n - i,
    {
        let value = truncate_to_i16(base[i] as i64 + add0[i] as i64 + add1[i] as i64 - sub0[i] as i64 - sub1[i] as i64);
        out[i] = value;
        i = i + 1;
    }
}

pub fn psqt_add(acc: &mut [i32], add: &[i32])
    requires
        add@.len() == old(acc)@.len(),
    ensures
        final(acc)@.len() == old(acc)@.len(),
        forall|i: int| 0 <= i < old(acc)@.len() ==> #[trigger] final(acc)@[i] == wrap32(old(acc)@[i] + add@[i]),
{
    let n = acc.len();
    let mut i: usize = 0;
    while i < n
        invariant
            n == acc@.len(),
            i <= n,
            add@.len() == n,
            acc@.len() == old(acc)@.len(),
            forall|j: int| 0 <= j < i ==> #[trigger] acc@[j] == wrap32(old(acc)@[j] + add@[j]),
            forall|j: int| i <= j < n ==> #[trigger] acc@[j] == old(acc)@[j],
        decreases n - i,
    {
        let value = truncate_to_i32(acc[i] as i64 + add[i] as i64);
        acc[i] = value;
        i = i + 1;
    }
}

pub fn psqt_sub(acc: &mut [i32], sub: &[i32])
    requires
        sub@.len() == old(acc)@.len(),
    ensures
        final(acc)@.len() == old(acc)@.len(),
        forall|i: int| 0 <= i < old(acc)@.len() ==> #[trigger] final(acc)@[i] == wrap32(old(acc)@[i] - sub@[i]),
{
    let n = acc.len();
    let mut i: usize = 0;
    while i < n
        invariant
            n == acc@.len(),
            i <= n,
            sub@.len() == n,
            acc@.len() == old(acc)@.len(),
            forall|j: int| 0 <= j < i ==> #[trigger] acc@[j] == wrap32(old(acc)@[j] - sub@[j]),
            forall|j: int| i <= j < n ==> #[trigger] acc@[j] == old(acc)@[j],
        decreases n - i,
    {
        let value = truncate_to_i32(acc[i] as i64 - sub[i] as i64);
        acc[i] = value;
        i = i + 1;
    }
}

pub fn psqt_add_sub(acc: &mut [i32], add: &[i32], sub: &[i32])
    requires
        add@.len() == old(acc)@.len(),
        sub@.len() == old(acc)@.len(),
    ensures
        final(acc)@.len() == old(acc)@.len(),
        forall|i: int| 0 <= i < old(acc)@.len() ==> #[trigger] final(acc)@[i] == wrap32(old(acc)@[i] + add@[i] - sub@[i]),
{
    let n = acc.len();
    let mut i: usize = 0;
    while i < n
        invariant
            n == acc@.len(),
            i <= n,
            add@.len() == n,
            sub@.len() == n,
            acc@.len() == old(acc)@.len(),
            forall|j: int| 0 <= j < i ==> #[trigger] acc@[j] == wrap32(old(acc)@[j] + add@[j] - sub@[j]),
            forall|j: int| i <= j < n ==> #[trigger] acc@[j] == old(acc)@[j],
        decreases n - i,
    {
        let value = truncate_to_i32(acc[i] as i64 + add[i] as i64 - sub[i] as i64);
        acc[i] = value;
        i = i + 1;
    }
}

pub fn psqt_add_into_both(base: &mut [i32], add: &[i32], out: &mut [i32])
    requires
        add@.len() == old(base)@.len(),
        old(out)@.len() == old(base)@.len(),
    ensures
        final(base)@.len() == old(base)@.len(),
        final(out)@.len() == old(base)@.len(),
        forall|i: int| 0 <= i < old(base)@.len() ==> #[trigger] final(base)@[i] == wrap32(old(base)@[i] + add@[i]),
        forall|i: int| 0 <= i < old(base)@.len() ==> #[trigger] final(out)@[i] == final(base)@[i],
{
    let n = base.len();
    let mut i: usize = 0;
    while i < n
        invariant
            n == base@.len(),
            i <= n,
            add@.len() == n,
            out@.len() == n,
            base@.len() == old(base)@.len(),
            forall|j: int| 0 <= j < i ==> #[trigger] base@[j] == wrap32(old(base)@[j] + add@[j]),
            forall|j: int| 0 <= j < i ==> #[trigger] out@[j] == base@[j],
            forall|j: int| i <= j < n ==> #[trigger] base@[j] == old(base)@[j],
        decreases n - i,
    {
        let value = truncate_to_i32(base[i] as i64 + add[i] as i64);
        base[i] = value;
        out[i] = value;
        i = i + 1;
    }
}

pub fn psqt_sub_into_both(base: &mut [i32], sub: &[i32], out: &mut [i32])
    requires
        sub@.len() == old(base)@.len(),
        old(out)@.len() == old(base)@.len(),
    ensures
        final(base)@.len() == old(base)@.len(),
        final(out)@.len() == old(base)@.len(),
        forall|i: int| 0 <= i < old(base)@.len() ==> #[trigger] final(base)@[i] == wrap32(old(base)@[i] - sub@[i]),
        forall|i: int| 0 <= i < old(base)@.len() ==> #[trigger] final(out)@[i] == final(base)@[i],
{
    let n = base.len();
    let mut i: usize = 0;
    while i < n
        invariant
            n == base@.len(),
            i <= n,
            sub@.len() == n,
            out@.len() == n,
            base@.len() == old(base)@.len(),
            forall|j: int| 0 <= j < i ==> #[trigger] base@[j] == wrap32(old(base)@[j] - sub@[j]),
            forall|j: int| 0 <= j < i ==> #[trigger] out@[j] == base@[j],
            forall|j: int| i <= j < n ==> #[trigger] base@[j] == old(base)@[j],
        decreases n - i,
    {
        let value = truncate_to_i32(base[i] as i64 - sub[i] as i64);
        base[i] = value;
        out[i] = value;
        i = i + 1;
    }
}

pub fn psqt_add1_sub1_into(base: &[i32], add: &[i32], sub: &[i32], out: &mut [i32])
    requires
        add@.len() == base@.len(),
        sub@.len() == base@.len(),
        old(out)@.len() == base@.len(),
    ensures
        final(out)@.len() == base@.len(),
        forall|i: int| 0 <= i < base@.len() ==> #[trigger] final(out)@[i] == wrap32(base@[i] + add@[i] - sub@[i]),
{
    let n = base.len();
    let mut i: usize = 0;
    while i < n
        invariant
            n == base@.len(),
            i <= n,
            add@.len() == n,
            sub@.len() == n,
            out@.len() == n,
            forall|j: int| 0 <= j < i ==> #[trigger] out@[j] == wrap32(base@[j] + add@[j] - sub@[j]),
        decreases n - i,
    {
        let value = truncate_to_i32(base[i] as i64 + add[i] as i64 - sub[i] as i64);
        out[i] = value;
        i = i + 1;
    }
}

pub fn psqt_add1_sub1_into_both(base: &mut [i32], add: &[i32], sub: &[i32], out: &mut [i32])
    requires
        add@.len() == old(base)@.len(),
        sub@.len() == old(base)@.len(),
        old(out)@.len() == old(base)@.len(),
    ensures
        final(base)@.len() == old(base)@.len(),
        final(out)@.len() == old(base)@.len(),
        forall|i: int| 0 <= i < old(base)@.len() ==> #[trigger] final(base)@[i] == wrap32(old(base)@[i] + add@[i] - sub@[i]),
        forall|i: int| 0 <= i < old(base)@.len() ==> #[trigger] final(out)@[i] == final(base)@[i],
{
    let n = base.len();
    let mut i: usize = 0;
    while i < n
        invariant
            n == base@.len(),
            i <= n,
            add@.len() == n,
            sub@.len() == n,
            out@.len() == n,
            base@.len() == old(base)@.len(),
            forall|j: int| 0 <= j < i ==> #[trigger] base@[j] == wrap32(old(base)@[j] + add@[j] - sub@[j]),
            forall|j: int| 0 <= j < i ==> #[trigger] out@[j] == base@[j],
            forall|j: int| i <= j < n ==> #[trigger] base@[j] == old(base)@[j],
        decreases n - i,
    {
        let value = truncate_to_i32(base[i] as i64 + add[i] as i64 - sub[i] as i64);
        base[i] = value;
        out[i] = value;
        i = i + 1;
    }
}

pub fn psqt_add1_sub2_into(base: &[i32], add: &[i32], sub0: &[i32], sub1: &[i32], out: &mut [i32])
    requires
        add@.len() == base@.len(),
        sub0@.len() == base@.len(),
        sub1@.len() == base@.len(),
        old(out)@.len() == base@.len(),
    ensures
        final(out)@.len() == base@.len(),
        forall|i: int| 0 <= i < base@.len() ==> #[trigger] final(out)@[i] == wrap32(base@[i] + add@[i] - sub0@[i] - sub1@[i]),
{
    let n = base.len();
    let mut i: usize = 0;
    while i < n
        invariant
            n == base@.len(),
            i <= n,
            add@.len() == n,
            sub0@.len() == n,
            sub1@.len() == n,
            out@.len() == n,
            forall|j: int| 0 <= j < i ==> #[trigger] out@[j] == wrap32(base@[j] + add@[j] - sub0@[j] - sub1@[j]),
        decreases n - i,
    {
        let value = truncate_to_i32(base[i] as i64 + add[i] as i64 - sub0[i] as i64 - sub1[i] as i64);
        out[i] = value;
        i = i + 1;
    }
}

pub fn psqt_add1_sub2_into_both(base: &mut [i32], add: &[i32], sub0: &[i32], sub1: &[i32], out: &mut [i32])
    requires
        add@.len() == old(base)@.len(),
        sub0@.len() == old(base)@.len(),
        sub1@.len() == old(base)@.len(),
        old(out)@.len() == old(base)@.len(),
    ensures
        final(base)@.len() == old(base)@.len(),
        final(out)@.len() == old(base)@.len(),
        forall|i: int| 0 <= i < old(base)@.len() ==> #[trigger] final(base)@[i] == wrap32(old(base)@[i] + add@[i] - sub0@[i] - sub1@[i]),
        forall|i: int| 0 <= i < old(base)@.len() ==> #[trigger] final(out)@[i] == final(base)@[i],
{
    let n = base.len();
    let mut i: usize = 0;
    while i < n
        invariant
            n == base@.len(),
            i <= n,
            add@.len() == n,
            sub0@.len() == n,
            sub1@.len() == n,
            out@.len() == n,
            base@.len() == old(base)@.len(),
            forall|j: int| 0 <= j < i ==> #[trigger] base@[j] == wrap32(old(base)@[j] + add@[j] - sub0@[j] - sub1@[j]),
            forall|j: int| 0 <= j < i ==> #[trigger] out@[j] == base@[j],
            forall|j: int| i <= j < n ==> #[trigger] base@[j] == old(base)@[j],
        decreases n - i,
    {
        let value = truncate_to_i32(base[i] as i64 + add[i] as i64 - sub0[i] as i64 - sub1[i] as i64);
        base[i] = value;
        out[i] = value;
        i = i + 1;
    }
}

pub fn psqt_add2_sub1_into(base: &[i32], add0: &[i32], add1: &[i32], sub: &[i32], out: &mut [i32])
    requires
        add0@.len() == base@.len(),
        add1@.len() == base@.len(),
        sub@.len() == base@.len(),
        old(out)@.len() == base@.len(),
    ensures
        final(out)@.len() == base@.len(),
        forall|i: int| 0 <= i < base@.len() ==> #[trigger] final(out)@[i] == wrap32(base@[i] + add0@[i] + add1@[i] - sub@[i]),
{
    let n = base.len();
    let mut i: usize = 0;
    while i < n
        invariant
            n == base@.len(),
            i <= n,
            add0@.len() == n,
            add1@.len() == n,
            sub@.len() == n,
            out@.len() == n,
            forall|j: int| 0 <= j < i ==> #[trigger] out@[j] == wrap32(base@[j] + add0@[j] + add1@[j] - sub@[j]),
        decreases n - i,
    {
        let value = truncate_to_i32(base[i] as i64 + add0[i] as i64 + add1[i] as i64 - sub[i] as i64);
        out[i] = value;
        i = i + 1;
    }
}

pub fn psqt_add2_sub1_into_both(base: &mut [i32], add0: &[i32], add1: &[i32], sub: &[i32], out: &mut [i32])
    requires
        add0@.len() == old(base)@.len(),
        add1@.len() == old(base)@.len(),
        sub@.len() == old(base)@.len(),
        old(out)@.len() == old(base)@.len(),
    ensures
        final(base)@.len() == old(base)@.len(),
        final(out)@.len() == old(base)@.len(),
        forall|i: int| 0 <= i < old(base)@.len() ==> #[trigger] final(base)@[i] == wrap32(old(base)@[i] + add0@[i] + add1@[i] - sub@[i]),
        forall|i: int| 0 <= i < old(base)@.len() ==> #[trigger] final(out)@[i] == final(base)@[i],
{
    let n = base.len();
    let mut i: usize = 0;
    while i < n
        invariant
            n == base@.len(),
            i <= n,
            add0@.len() == n,
            add1@.len() == n,
            sub@.len() == n,
            out@.len() == n,
            base@.len() == old(base)@.len(),
            forall|j: int| 0 <= j < i ==> #[trigger] base@[j] == wrap32(old(base)@[j] + add0@[j] + add1@[j] - sub@[j]),
            forall|j: int| 0 <= j < i ==> #[trigger] out@[j] == base@[j],
            forall|j: int| i <= j < n ==> #[trigger] base@[j] == old(base)@[j],
        decreases n - i,
    {
        let value = truncate_to_i32(base[i] as i64 + add0[i] as i64 + add1[i] as i64 - sub[i] as i64);
        base[i] = value;
        out[i] = value;
        i = i + 1;
    }
}

pub fn psqt_add2_sub2_into(base: &[i32], add0: &[i32], add1: &[i32], sub0: &[i32], sub1: &[i32], out: &mut [i32])
    requires
        add0@.len() == base@.len(),
        add1@.len() == base@.len(),
        sub0@.len() == base@.len(),
        sub1@.len() == base@.len(),
        old(out)@.len() == base@.len(),
    ensures
        final(out)@.len() == base@.len(),
        forall|i: int| 0 <= i < base@.len() ==> #[trigger] final(out)@[i] == wrap32(base@[i] + add0@[i] + add1@[i] - sub0@[i] - sub1@[i]),
{
    let n = base.len();
    let mut i: usize = 0;
    while i < n
        invariant
            n == base@.len(),
            i <= n,
            add0@.len() == n,
            add1@.len() == n,
            sub0@.len() == n,
            sub1@.len() == n,
            out@.len() == n,
            forall|j: int| 0 <= j < i ==> #[trigger] out@[j] == wrap32(base@[j] + add0@[j] + add1@[j] - sub0@[j] - sub1@[j]),
        decreases n - i,
    {
        let value = truncate_to_i32(base[i] as i64 + add0[i] as i64 + add1[i] as i64 - sub0[i] as i64 - sub1[i] as i64);
        out[i] = value;
        i = i + 1;
    }
}

} // verus!
