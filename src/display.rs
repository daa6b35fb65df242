//! Text shown to listeners: durations, and the colour of each catalog.
use vstd::arithmetic::div_mod::lemma_div_denominator;
use crate::track::same_text;
use vstd::prelude::*;

verus! {

/// The character of a decimal digit.
pub open spec fn digit_char(d: nat) -> char {
    if d == 0 { '0' }
    else if d == 1 { '1' }
    else if d == 2 { '2' }
    else if d == 3 { '3' }
    else if d == 4 { '4' }
    else if d == 5 { '5' }
    else if d == 6 { '6' }
    else if d == 7 { '7' }
    else if d == 8 { '8' }
    else { '9' }
}

/// The decimal writing of `n`, without leading zeros.
pub open spec fn decimal(n: nat) -> Seq<char>
    decreases n,
{
    if n < 10 {
        seq![digit_char(n)]
    } else {
        decimal(n / 10) + seq![digit_char(n % 10)]
    }
}

/// The decimal writing of `n`, padded with zeros to at least two characters.
pub open spec fn padded2(n: nat) -> Seq<char> {
    if n < 10 {
        seq!['0', digit_char(n)]
    } else {
        decimal(n)
    }
}

/// `HH:MM:SS` for a duration of an hour or more, `MM:SS` below.
pub open spec fn millis_text(millis: nat) -> Seq<char> {
    let hours = millis / 3_600_000;
    let minutes = millis / 60_000 % 60;
    let seconds = millis / 1000 % 60;
    let head = if hours > 0 { padded2(hours) + seq![':'] } else { Seq::empty() };
    head + padded2(minutes) + seq![':'] + padded2(seconds)
}

fn digit_str(d: u64) -> (r: &'static str)
    requires
        d < 10,
    ensures
        r@ == seq![digit_char(d as nat)],
{
    proof {
        reveal_strlit("0");
        reveal_strlit("1");
        reveal_strlit("2");
        reveal_strlit("3");
        reveal_strlit("4");
        reveal_strlit("5");
        reveal_strlit("6");
        reveal_strlit("7");
        reveal_strlit("8");
        reveal_strlit("9");
    }
    if d == 0 { "0" }
    else if d == 1 { "1" }
    else if d == 2 { "2" }
    else if d == 3 { "3" }
    else if d == 4 { "4" }
    else if d == 5 { "5" }
    else if d == 6 { "6" }
    else if d == 7 { "7" }
    else if d == 8 { "8" }
    else { "9" }
}

fn push_decimal(s: &mut String, n: u64)
    ensures
        final(s)@ == old(s)@ + decimal(n as nat),
    decreases n,
{
    if n >= 10 {
        push_decimal(s, n / 10);
    }
    s.append(digit_str(n % 10));
    proof {
        assert(final(s)@ =~= old(s)@ + decimal(n as nat));
    }
}

fn push_padded2(s: &mut String, n: u64)
    ensures
        final(s)@ == old(s)@ + padded2(n as nat),
{
    if n < 10 {
        proof { reveal_strlit("0"); }
        s.append("0");
        s.append(digit_str(n));
        proof {
            assert(final(s)@ =~= old(s)@ + padded2(n as nat));
        }
    } else {
        push_decimal(s, n);
    }
}

/// Writes a duration in milliseconds as `MM:SS`, or `HH:MM:SS` from an hour on.
pub fn format_millis(millis: u64) -> (r: String)
    ensures
        r@ == millis_text(millis as nat),
{
    let hours = millis / 1000 / 60 / 60;
    let minutes = millis / 1000 / 60 % 60;
    let seconds = millis / 1000 % 60;
    proof {
        lemma_div_denominator(millis as int, 1000, 60);
        lemma_div_denominator(millis as int, 60_000, 60);
    }
    let mut s = String::new();
    proof { reveal_strlit(":"); }
    if hours > 0 {
        push_padded2(&mut s, hours);
        s.append(":");
    }
    push_padded2(&mut s, minutes);
    s.append(":");
    push_padded2(&mut s, seconds);
    proof {
        assert(s@ =~= millis_text(millis as nat));
    }
    s
}

/// The emoji markup shown beside a catalog's tracks.
pub open spec fn source_emoji(source: Seq<char>) -> Seq<char> {
    if source == "youtube"@ {
        "<:youtube:1290422789899157546>"@
    } else if source == "deezer"@ {
        "<:deezer:1290423677913006090>"@
    } else if source == "soundcloud"@ {
        "<:soundcloud:1290423857336811612>"@
    } else if source == "spotify"@ {
        "<:spotify:1366886498170961992>"@
    } else {
        "<:thonk:464380571628339210>"@
    }
}

/// The colour, as `0xRRGGBB`, of a catalog's embeds.
pub open spec fn source_color(source: Seq<char>) -> u32 {
    if source == "youtube"@ {
        0xff0000
    } else if source == "deezer"@ {
        0xa238ff
    } else if source == "soundcloud"@ {
        0xf15e22
    } else if source == "spotify"@ {
        0x1ED760
    } else {
        0x23272A
    }
}

/// The emoji markup shown beside the tracks of catalog `source`.
pub fn source_to_emoji(source: &str) -> (r: &'static str)
    ensures
        r@ == source_emoji(source@),
{
    if same_text(source, "youtube") {
        "<:youtube:1290422789899157546>"
    } else if same_text(source, "deezer") {
        "<:deezer:1290423677913006090>"
    } else if same_text(source, "soundcloud") {
        "<:soundcloud:1290423857336811612>"
    } else if same_text(source, "spotify") {
        "<:spotify:1366886498170961992>"
    } else {
        "<:thonk:464380571628339210>"
    }
}

/// The colour, as `0xRRGGBB`, of the embeds for catalog `source`.
pub fn source_to_color(source: &str) -> (r: u32)
    ensures
        r == source_color(source@),
{
    if same_text(source, "youtube") {
        0xff0000
    } else if same_text(source, "deezer") {
        0xa238ff
    } else if same_text(source, "soundcloud") {
        0xf15e22
    } else if same_text(source, "spotify") {
        0x1ED760
    } else {
        0x23272A
    }
}

} // verus!
