//! Small rendering helpers shared by the argument builders: decimal
//! formatting of unsigned integers and the `key=value[,key=value]*`
//! rendering of a property map.

use vstd::prelude::*;
use vstd::string::*;
use crate::props::PropMap;

verus! {

/// The decimal digit character for a value below ten.
pub open spec fn dec_digit(n: nat) -> char {
    if n == 0 {
        '0'
    } else if n == 1 {
        '1'
    } else if n == 2 {
        '2'
    } else if n == 3 {
        '3'
    } else if n == 4 {
        '4'
    } else if n == 5 {
        '5'
    } else if n == 6 {
        '6'
    } else if n == 7 {
        '7'
    } else if n == 8 {
        '8'
    } else {
        '9'
    }
}

/// The decimal rendering of a natural number, most significant digit first.
pub open spec fn spec_dec(n: nat) -> Seq<char>
    decreases n,
{
    if n < 10 {
        seq![dec_digit(n)]
    } else {
        spec_dec(n / 10).push(dec_digit(n % 10))
    }
}

/// The one-character string for a decimal digit.
pub(crate) fn dec_digit_str(d: u64) -> (r: &'static str)
    requires
        d < 10,
    ensures
        r@ == seq![dec_digit(d as nat)],
{
    proof {
        reveal_strlit("0");
        reveal_strlit("1");
        reveal_strlit("2");
        reveal_strlit("3");
        reveal_strlit("4");
        reveal_strlit("5");
        reveal_strlit("6");
        reveal_strlit("7");
        reveal_strlit("8");
        reveal_strlit("9");
    }
    let r = match d {
        0 => "0",
        1 => "1",
        2 => "2",
        3 => "3",
        4 => "4",
        5 => "5",
        6 => "6",
        7 => "7",
        8 => "8",
        _ => "9",
    };
    proof {
        assert(r@ =~= seq![dec_digit(d as nat)]);
    }
    r
}

/// Renders an unsigned integer in decimal.
pub fn u64_to_string(n: u64) -> (r: String)
    ensures
        r@ == spec_dec(n as nat),
    decreases n,
{
    if n < 10 {
        String::from_str(dec_digit_str(n))
    } else {
        let mut s = u64_to_string(n / 10);
        s.append(dec_digit_str(n % 10));
        s
    }
}

/// The `key=value` rendering of one entry.
pub open spec fn spec_kv(e: (Seq<char>, Seq<char>)) -> Seq<char> {
    e.0 + "="@ + e.1
}

/// The comma-joined `key=value` renderings of an entry sequence.
pub open spec fn spec_render_entries(s: Seq<(Seq<char>, Seq<char>)>) -> Seq<char>
    decreases s.len(),
{
    if s.len() == 0 {
        Seq::empty()
    } else if s.len() == 1 {
        spec_kv(s[0])
    } else {
        spec_render_entries(s.drop_last()) + ","@ + spec_kv(s.last())
    }
}

/// Renders a property map as `key=value` pairs joined with commas, in the
/// stored (sorted) key order.
pub fn render_props(m: &PropMap) -> (r: String)
    ensures
        r@ == spec_render_entries(m@),
{
    let mut out = String::new();
    let n = m.len();
    let mut i: usize = 0;
    proof {
        assert(m@.subrange(0, 0) =~= Seq::<(Seq<char>, Seq<char>)>::empty());
    }
    while i < n
        invariant
            n == m@.len(),
            i <= n,
            out@ == spec_render_entries(m@.subrange(0, i as int)),
        decreases n - i,
    {
        let ghost before = m@.subrange(0, i as int);
        if i > 0 {
            out.append(",");
        }
        let (k, v) = m.entry_at(i);
        out.append(k.as_str());
        out.append("=");
        out.append(v.as_str());
        proof {
            let now = m@.subrange(0, i + 1);
            assert(now.drop_last() =~= before);
            assert(now.last() == m@[i as int]);
            if i == 0 {
                assert(out@ =~= spec_kv(now[0]));
            }
        }
        i = i + 1;
    }
    proof {
        assert(m@.subrange(0, n as int) =~= m@);
    }
    out
}

} // verus!
