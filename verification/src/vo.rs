use vstd::prelude::*;

verus! {

/// The video output used when a stream is played.
#[derive(Debug, Clone, Copy, PartialEq, Eq, Structural)]
pub enum Vo {
    Ascii,
    Ansi,
    Kitty,
    Mpv,
}

/// Position of an output in the cycle `Ascii -> Ansi -> Kitty -> Mpv -> Ascii`.
pub open spec fn vo_index(vo: Vo) -> int {
    match vo {
        Vo::Ascii => 0,
        Vo::Ansi => 1,
        Vo::Kitty => 2,
        Vo::Mpv => 3,
    }
}

/// The output at position `i` (taken modulo four) of the cycle.
pub open spec fn vo_at(i: int) -> Vo {
    let k = i % 4;
    if k == 0 {
        Vo::Ascii
    } else if k == 1 {
        Vo::Ansi
    } else if k == 2 {
        Vo::Kitty
    } else {
        Vo::Mpv
    }
}

/// The output that follows `vo` in the cycle.
pub open spec fn vo_next(vo: Vo) -> Vo {
    vo_at(vo_index(vo) + 1)
}

/// The output that precedes `vo` in the cycle.
pub open spec fn vo_prev(vo: Vo) -> Vo {
    vo_at(vo_index(vo) + 3)
}

/// The displayed name of an output.
pub open spec fn vo_name(vo: Vo) -> Seq<char> {
    match vo {
        Vo::Ascii => "ascii"@,
        Vo::Ansi => "ansi"@,
        Vo::Kitty => "kitty"@,
        Vo::Mpv => "mpv"@,
    }
}

impl Vo {
    /// The output used when nothing else was chosen.
    pub fn default_output() -> (vo: Vo)
        ensures
            vo == Vo::Mpv,
    {
        Vo::Mpv
    }

    /// The next output of the cycle.
    pub fn next(&self) -> (r: Vo)
        ensures
            r == vo_next(*self),
    {
        match self {
            Vo::Ascii => Vo::Ansi,
            Vo::Ansi => Vo::Kitty,
            Vo::Kitty => Vo::Mpv,
            Vo::Mpv => Vo::Ascii,
        }
    }

    /// The previous output of the cycle.
    pub fn prev(&self) -> (r: Vo)
        ensures
            r == vo_prev(*self),
    {
        match self {
            Vo::Ascii => Vo::Mpv,
            Vo::Ansi => Vo::Ascii,
            Vo::Kitty => Vo::Ansi,
            Vo::Mpv => Vo::Kitty,
        }
    }

    /// The displayed name of the output, as its `Display` writes it.
    pub fn name(&self) -> (s: String)
        ensures
            s@ == vo_name(*self),
    {
        match self {
            Vo::Ascii => String::from_str("ascii"),
            Vo::Ansi => String::from_str("ansi"),
            Vo::Kitty => String::from_str("kitty"),
            Vo::Mpv => String::from_str("mpv"),
        }
    }
}

/// Stepping forward and then back through the outputs (or back and then
/// forward) gives the output one started from.
pub proof fn lemma_next_prev_inverse(vo: Vo)
    ensures
        vo_prev(vo_next(vo)) == vo,
        vo_next(vo_prev(vo)) == vo,
{
}

/// The outputs form a cycle of length four: four steps forward come back to
/// the start, and no fewer do.
pub proof fn lemma_next_cycle(vo: Vo)
    ensures
        vo_next(vo_next(vo_next(vo_next(vo)))) == vo,
        vo_next(vo) != vo,
        vo_next(vo_next(vo)) != vo,
        vo_next(vo_next(vo_next(vo))) != vo,
{
}

/// How a stream is played.
#[derive(Debug, Clone, Copy, PartialEq, Eq, Structural)]
pub enum Playback {
    /// The output plays nothing.
    Nothing,
    /// Half-block frames drawn in the terminal, with the sound from `mpv`.
    Ansi,
    /// A full-screen `mpv` window.
    Mpv,
}

/// How a stream is played on an output: the `mpv` output falls back to the
/// terminal when `mpv` is not installed; `ascii` and `kitty` play nothing.
pub open spec fn playback(vo: Vo, mpv_installed: bool) -> Playback {
    match vo {
        Vo::Ascii => Playback::Nothing,
        Vo::Ansi => Playback::Ansi,
        Vo::Kitty => Playback::Nothing,
        Vo::Mpv => if mpv_installed { Playback::Mpv } else { Playback::Ansi },
    }
}

/// How a stream is played on `vo`; `mpv_installed` is only read for the
/// `mpv` output.
pub fn playback_for(vo: Vo, mpv_installed: bool) -> (p: Playback)
    ensures
        p == playback(vo, mpv_installed),
{
    match vo {
        Vo::Ascii => Playback::Nothing,
        Vo::Ansi => Playback::Ansi,
        Vo::Kitty => Playback::Nothing,
        Vo::Mpv => if mpv_installed {
            Playback::Mpv
        } else {
            Playback::Ansi
        },
    }
}

/// The output kept at start-up: the current one when `mpv` is installed, the
/// terminal when only `ffmpeg` is, none when neither is (the application
/// cannot play anything and stops). `has_ffmpeg` is only read without `mpv`.
pub fn startup_vo(current: Vo, has_mpv: bool, has_ffmpeg: bool) -> (vo: Option<Vo>)
    ensures
        vo == if has_mpv {
            Some(current)
        } else if has_ffmpeg {
            Some(Vo::Ansi)
        } else {
            None::<Vo>
        },
{
    if has_mpv {
        Some(current)
    } else if has_ffmpeg {
        Some(Vo::Ansi)
    } else {
        None
    }
}

} // verus!
