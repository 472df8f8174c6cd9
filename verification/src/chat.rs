use vstd::prelude::*;

verus! {

/// A colour of chat, HUD and sidebar text.
#[derive(Debug, Clone, Copy, PartialEq, Eq, Structural)]
pub enum TextColor {
    White,
    Gray,
    DarkGray,
    Gold,
    Yellow,
    Aqua,
    Green,
    Red,
    LightPurple,
    /// A colour given by its 24-bit RGB value.
    Rgb(u32),
}

/// The colour of the race HUD on the action bar.
pub const HUD_COLOR: TextColor = TextColor::Gold;

/// What a chat message is about, which sets its colour.
#[derive(Debug, Clone, Copy, PartialEq, Eq, Structural)]
pub enum Tone {
    Info,
    Event,
    Notice,
    Good,
    Warn,
    Alert,
    Record,
}

impl Tone {
    /// The colour of messages of this tone.
    pub fn color(self) -> (c: TextColor)
        ensures
            c == match self {
                Tone::Info => TextColor::Gray,
                Tone::Event => TextColor::Gold,
                Tone::Notice => TextColor::Aqua,
                Tone::Good => TextColor::Green,
                Tone::Warn => TextColor::Red,
                Tone::Alert => TextColor::Yellow,
                Tone::Record => TextColor::LightPurple,
            },
    {
        match self {
            Tone::Info => TextColor::Gray,
            Tone::Event => TextColor::Gold,
            Tone::Notice => TextColor::Aqua,
            Tone::Good => TextColor::Green,
            Tone::Warn => TextColor::Red,
            Tone::Alert => TextColor::Yellow,
            Tone::Record => TextColor::LightPurple,
        }
    }
}

/// The colour of a podium line: gold, silver and bronze for the first three
/// places, white below.
pub fn podium(rank: usize) -> (c: TextColor)
    ensures
        c == (if rank == 1 {
            TextColor::Gold
        } else if rank == 2 {
            TextColor::Gray
        } else if rank == 3 {
            TextColor::Rgb(0xCD7F32)
        } else {
            TextColor::White
        }),
{
    match rank {
        1 => TextColor::Gold,
        2 => TextColor::Gray,
        3 => TextColor::Rgb(0xCD7F32),
        _ => TextColor::White,
    }
}

/// HUD periods a flash message holds the action bar for.
pub const FLASH_PERIODS: u8 = 8;

/// How many more HUD periods a flash message keeps the action bar.
#[derive(Debug, Default, Clone, Copy, PartialEq, Eq)]
pub struct Flash(pub u8);

impl Flash {
    /// A flash message was just shown: it holds the action bar.
    pub fn hold(&mut self)
        ensures
            final(self).0 == FLASH_PERIODS,
    {
        self.0 = FLASH_PERIODS;
    }

    /// One HUD period passes: the HUD may write the action bar only once the
    /// flash has run out; until then the flash counts down.
    pub fn hud_free(&mut self) -> (free: bool)
        ensures
            free == (old(self).0 == 0),
            final(self).0 == flash_after(old(self).0, 1),
    {
        proof {
            reveal_with_fuel(flash_after, 2);
        }
        if self.0 > 0 {
            self.0 = self.0 - 1;
            false
        } else {
            true
        }
    }
}

/// A held flash keeps the HUD off the action bar for exactly
/// `FLASH_PERIODS` periods: what is left of it is not zero before, and is
/// zero after.
pub proof fn a_flash_holds_for_its_periods(periods: nat)
    ensures
        periods < FLASH_PERIODS ==> flash_after(FLASH_PERIODS, periods) > 0,
        flash_after(FLASH_PERIODS, FLASH_PERIODS as nat) == 0,
{
    reveal_with_fuel(flash_after, 9);
    if periods < FLASH_PERIODS {
        lemma_flash_after(FLASH_PERIODS, periods);
    }
}

/// What is left of a flash of `n` periods after `periods` HUD periods.
pub open spec fn flash_after(n: u8, periods: nat) -> u8
    decreases periods,
{
    if periods == 0 {
        n
    } else if n > 0 {
        flash_after((n - 1) as u8, (periods - 1) as nat)
    } else {
        0
    }
}

proof fn lemma_flash_after(n: u8, periods: nat)
    requires
        periods < n,
    ensures
        flash_after(n, periods) == n - periods,
    decreases periods,
{
    if periods > 0 {
        lemma_flash_after((n - 1) as u8, (periods - 1) as nat);
    }
}

} // verus!
