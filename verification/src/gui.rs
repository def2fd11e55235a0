//! The desktop application: its screens and state, and how titles are
//! labelled and coloured.
use crate::text::{chars_of, decimal, decimal_chars, extend_chars, extend_str, string_of};
use vstd::prelude::*;
use vstd::string::StringSliceAdditionalSpecFns;

pub mod app;
pub mod helpers;
pub mod views;

verus! {

/// The screens of the web interface.
#[derive(Debug, Clone, Copy, PartialEq, Eq, Structural)]
pub enum Screen {
    Home,
    Search,
    Details,
    Player,
    Downloads,
}

/// The poster backgrounds titles without a picture are given.
pub open spec fn poster_palette() -> Seq<(u8, u8, u8)> {
    seq![
        (0x8B, 0x1A, 0x1A),
        (0x0D, 0x3B, 0x66),
        (0x3B, 0x0A, 0x5C),
        (0x14, 0x40, 0x14),
        (0x6B, 0x3A, 0x00),
        (0x5C, 0x0E, 0x0E),
        (0x0A, 0x2A, 0x4A),
        (0x40, 0x0A, 0x50),
        (0x4A, 0x0E, 0x0E),
        (0x00, 0x3A, 0x3A),
        (0x3E, 0x21, 0x23),
        (0x1B, 0x2A, 0x41),
        (0x2D, 0x1B, 0x00),
        (0x1A, 0x0A, 0x2E),
        (0x0E, 0x33, 0x1A),
        (0x33, 0x1A, 0x0E),
    ]
}

/// A poster background.
pub fn palette_color(i: usize) -> (r: (u8, u8, u8))
    requires
        i < 16,
    ensures
        r == poster_palette()[i as int],
{
    let palette: [(u8, u8, u8); 16] = [
        (0x8B, 0x1A, 0x1A),
        (0x0D, 0x3B, 0x66),
        (0x3B, 0x0A, 0x5C),
        (0x14, 0x40, 0x14),
        (0x6B, 0x3A, 0x00),
        (0x5C, 0x0E, 0x0E),
        (0x0A, 0x2A, 0x4A),
        (0x40, 0x0A, 0x50),
        (0x4A, 0x0E, 0x0E),
        (0x00, 0x3A, 0x3A),
        (0x3E, 0x21, 0x23),
        (0x1B, 0x2A, 0x41),
        (0x2D, 0x1B, 0x00),
        (0x1A, 0x0A, 0x2E),
        (0x0E, 0x33, 0x1A),
        (0x33, 0x1A, 0x0E),
    ];
    assert(palette@ =~= poster_palette());
    palette[i]
}

/// The CSS colour `rgb(r,g,b)`.
pub open spec fn rgb_text(c: (u8, u8, u8)) -> Seq<char> {
    "rgb("@ + decimal(c.0 as nat) + ","@ + decimal(c.1 as nat) + ","@ + decimal(c.2 as nat) + ")"@
}

/// Writes a colour as CSS.
pub fn rgb_string(c: (u8, u8, u8)) -> (r: String)
    ensures
        r@ == rgb_text(c),
{
    let mut v = chars_of("rgb(");
    extend_chars(&mut v, &decimal_chars(c.0 as u64));
    extend_str(&mut v, ",");
    extend_chars(&mut v, &decimal_chars(c.1 as u64));
    extend_str(&mut v, ",");
    extend_chars(&mut v, &decimal_chars(c.2 as u64));
    extend_str(&mut v, ")");
    string_of(&v)
}

/// The string hash `h = h * 37 + byte` over the bytes, modulo 2^32.
pub open spec fn hash37(b: Seq<u8>) -> u32
    decreases b.len(),
{
    if b.len() == 0 {
        0
    } else {
        ((hash37(b.drop_last()) as nat * 37 + b.last() as nat) % 0x1_0000_0000) as u32
    }
}

/// The hash of a title's name that picks its poster colour.
pub fn name_hash(name: &str) -> (h: usize)
    ensures
        h == hash37(name.spec_bytes()),
{
    let b = name.as_bytes();
    let mut h: u32 = 0;
    let mut i: usize = 0;
    assert(b@.take(0) =~= Seq::<u8>::empty());
    while i < b.len()
        invariant
            i <= b@.len(),
            h == hash37(b@.take(i as int)),
        decreases b@.len() - i,
    {
        let ghost prev = h;
        let m = h.wrapping_mul(37);
        h = m.wrapping_add(b[i] as u32);
        assert(b@.take(i + 1).drop_last() =~= b@.take(i as int));
        assert(b@.take(i + 1).last() == b@[i as int]);
        proof {
            let p = prev as nat * 37;
            assert(m == (p % 0x1_0000_0000) as u32);
            let q = m as nat + b@[i as int] as nat;
            assert(h == (q % 0x1_0000_0000) as u32);
            vstd::arithmetic::div_mod::lemma_add_mod_noop(p as int, b@[i as int] as int, 0x1_0000_0000);
            vstd::arithmetic::div_mod::lemma_small_mod(b@[i as int] as nat, 0x1_0000_0000);
        }
        i = i + 1;
    }
    assert(b@.take(b@.len() as int) =~= b@);
    h as usize
}

/// The poster background of a title without a picture, picked by the hash
/// of its name.
pub fn poster_color(name: &str) -> (r: String)
    ensures
        r@ == rgb_text(poster_palette()[(hash37(name.spec_bytes()) % 16) as int]),
{
    let h = name_hash(name);
    rgb_string(palette_color(h % 16))
}

/// The name of a provider by its position in the list of providers.
pub open spec fn provider_name_text(idx: usize) -> Seq<char> {
    if idx == 0 {
        "StreamingCommunity"@
    } else if idx == 1 {
        "RaiPlay"@
    } else if idx == 2 {
        "Nove"@
    } else if idx == 3 {
        "AnimeUnity"@
    } else {
        "Unknown"@
    }
}

/// The name of a provider by its position in the list of providers.
pub fn provider_label(idx: usize) -> (r: &'static str)
    ensures
        r@ == provider_name_text(idx),
{
    match idx {
        0 => "StreamingCommunity",
        1 => "RaiPlay",
        2 => "Nove",
        3 => "AnimeUnity",
        _ => "Unknown",
    }
}

} // verus!
