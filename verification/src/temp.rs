use vstd::prelude::*;

use crate::paths::{
    join_absolute, spec_components, spec_is_absolute, spec_join_abs, split_components, views,
};

verus! {

// Scratch files are allocated next to the target under a fixed, recognizable
// prefix with a random hexadecimal tag, so that an interrupted build leaves
// only files that are safe to clean up by name.

/// The sixteen hexadecimal digits, in value order.
pub open spec fn hex_digits() -> Seq<char> {
    seq!['0', '1', '2', '3', '4', '5', '6', '7', '8', '9', 'a', 'b', 'c', 'd', 'e', 'f']
}

/// The lowercase hexadecimal rendering of `n`, without leading zeros
/// (`0` itself is `0`).
pub open spec fn spec_hex(n: nat) -> Seq<char>
    decreases n,
{
    if n < 16 {
        seq![hex_digits()[n as int]]
    } else {
        spec_hex(n / 16).push(hex_digits()[(n % 16) as int])
    }
}

/// The fixed prefix of every scratch filename.
pub open spec fn temp_prefix() -> Seq<char> {
    seq!['.', 't', 'm', 'p', 'f', '-', 'r', 'e', 'd', 'o', 'n', 'k', '-']
}

/// The scratch filename carrying a given random tag.
pub open spec fn spec_temp_name(seed: u64) -> Seq<char> {
    temp_prefix() + spec_hex(seed as nat)
}

/// The scratch path for a target at absolute path `target`: a sibling named
/// by the tag.
pub open spec fn spec_temp_sibling(target: Seq<char>, seed: u64) -> Seq<char> {
    spec_join_abs(spec_components(target).drop_last().push(spec_temp_name(seed)))
}

/// One hexadecimal digit as a string.
fn hex_str(d: u64) -> (r: String)
    requires
        d < 16,
    ensures
        r@ == seq![hex_digits()[d as int]],
{
    let digits = "0123456789abcdef";
    proof {
        reveal_strlit("0123456789abcdef");
        assert(digits@ =~= hex_digits());
    }
    let sub = digits.substring_char(d as usize, d as usize + 1);
    let r = String::from_str(sub);
    proof {
        assert(r@ =~= seq![hex_digits()[d as int]]);
    }
    r
}

/// Appends the hexadecimal rendering of `n`.
fn push_hex(out: &mut String, n: u64)
    ensures
        final(out)@ == old(out)@ + spec_hex(n as nat),
    decreases n,
{
    if n < 16 {
        let h = hex_str(n);
        out.append(h.as_str());
    } else {
        push_hex(out, n / 16);
        let h = hex_str(n % 16);
        out.append(h.as_str());
        proof {
            assert((n / 16) as nat == (n as nat) / 16);
            assert((n % 16) as nat == (n as nat) % 16);
            assert(old(out)@ + spec_hex((n / 16) as nat) + seq![
                hex_digits()[(n % 16) as int],
            ] =~= old(out)@ + spec_hex(n as nat));
        }
    }
}

/// The scratch filename for a tag: the fixed prefix and the tag in
/// hexadecimal.
pub fn temp_name(seed: u64) -> (r: String)
    ensures
        r@ == spec_temp_name(seed),
{
    let mut out = String::from_str(".tmpf-redonk-");
    proof {
        reveal_strlit(".tmpf-redonk-");
        assert(out@ =~= temp_prefix());
    }
    push_hex(&mut out, seed);
    out
}

/// The scratch path beside the target for a given tag.
pub fn temp_sibling_path(target_abs: &String, seed: u64) -> (r: String)
    requires
        spec_is_absolute(target_abs@),
        spec_components(target_abs@).len() > 0,
    ensures
        r@ == spec_temp_sibling(target_abs@, seed),
        spec_is_absolute(r@),
{
    let mut cs = split_components(target_abs.as_str());
    cs.pop();
    let ghost kept = views(cs@);
    let name = temp_name(seed);
    cs.push(name);
    proof {
        assert(kept =~= spec_components(target_abs@).drop_last());
        assert(views(cs@) =~= spec_components(target_abs@).drop_last().push(
            spec_temp_name(seed),
        ));
    }
    let r = join_absolute(&cs);
    proof {
        assert(spec_is_absolute(r@)) by {
            if views(cs@).len() == 0 {
                assert(r@ == seq!['/']);
            } else {
                assert(r@ == seq!['/'] + crate::paths::spec_join_rel(views(cs@)));
            }
        }
    }
    r
}

/// Relies on rand::random for a fresh 64-bit tag; nothing is assumed of the
/// value drawn.
#[verifier::external_body]
fn random_u64() -> u64 {
    rand::random::<u64>()
}

/// A freshly drawn scratch path beside the target: the fixed prefix with
/// some random tag. The caller still has to check the path is unused and
/// draw again if not.
pub fn fresh_temp_path(target_abs: &String) -> (r: String)
    requires
        spec_is_absolute(target_abs@),
        spec_components(target_abs@).len() > 0,
    ensures
        exists|seed: u64| r@ == #[trigger] spec_temp_sibling(target_abs@, seed),
        spec_is_absolute(r@),
{
    let seed = random_u64();
    let r = temp_sibling_path(target_abs, seed);
    proof {
        assert(r@ == spec_temp_sibling(target_abs@, seed));
    }
    r
}

} // verus!
