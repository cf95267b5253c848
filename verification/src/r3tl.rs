//! The ringtone interpreter: tokenizer, note decoder and the playback state
//! machine (`Player`).
//!
//! Ringtone text has the shape `"<name>:<header>:<body>"`. The header is a
//! comma-separated list of `key=value` defaults; the body is a
//! comma-separated list of note tokens, each
//! `[<duration-digits>][<pitch-letter>[#]|p][.][<octave-digit>]`. Parsing is
//! deliberately tolerant: unrecognized header keys are ignored, malformed
//! numbers fall back to the current default, and an unrecognized pitch name
//! decodes to silence rather than failing.

use vstd::prelude::*;

use crate::notes::{note_freq, pitch_freq};
use crate::parse::{
    all_digits, is_digit, lemma_run_len_is, parse_u32, parse_u32_opt, run_len, split_bytes,
    split_on, sub_vec,
};
use crate::timer::{FrameTimer, SoundTimer, Timer};
use vstd::string::StringSliceAdditionalSpecFns;

verus! {

/// One decoded note: a frequency in Hz (the table's near-zero rest entry, or
/// any frequency of at most 1 Hz, denotes silence) and how many frame-timer
/// ticks the note should sound.
#[derive(Clone, Copy, Debug, PartialEq, Eq, Structural)]
pub struct Tone {
    pub freq: u32,
    pub frames: u32,
}

/// The tone a player holds before any note was decoded: an inaudible
/// placeholder with no frame budget.
pub open spec fn silence() -> Tone {
    Tone { freq: 10000, frames: 0 }
}

/// True of the bytes that may appear in a pitch name: `a`-`g`, `#` and the
/// rest mark `p`.
pub open spec fn is_note_char(b: u8) -> bool {
    b == 35 || 97 <= b <= 103 || b == 112
}

/// The pitch-class column for a pitch name: 0-11 for C through B, 12 for the
/// rest `p`, `None` when the name is not recognized.
pub open spec fn note_index(s: Seq<u8>) -> Option<int> {
    if s.len() == 1 {
        if s[0] == 99 {
            Some(0int)
        } else if s[0] == 100 {
            Some(2int)
        } else if s[0] == 101 {
            Some(4int)
        } else if s[0] == 102 {
            Some(5int)
        } else if s[0] == 103 {
            Some(7int)
        } else if s[0] == 97 {
            Some(9int)
        } else if s[0] == 98 {
            Some(11int)
        } else if s[0] == 112 {
            Some(12int)
        } else {
            None
        }
    } else if s.len() == 2 && s[1] == 35 {
        if s[0] == 99 {
            Some(1int)
        } else if s[0] == 100 {
            Some(3int)
        } else if s[0] == 102 {
            Some(6int)
        } else if s[0] == 103 {
            Some(8int)
        } else if s[0] == 97 {
            Some(10int)
        } else {
            None
        }
    } else {
        None
    }
}

/// Folds the bytes after the pitch name: a `.` sets the dotted flag, a digit
/// overrides the octave, and any other byte resets the octave to the header
/// default. Returns the final (dotted, octave) pair.
pub open spec fn scan_tail(s: Seq<u8>, dot: bool, oct: u32, dflt: u32) -> (bool, u32)
    decreases s.len(),
{
    if s.len() == 0 {
        (dot, oct)
    } else if s[0] == 46 {
        scan_tail(s.drop_first(), true, oct, dflt)
    } else if is_digit(s[0]) {
        scan_tail(s.drop_first(), dot, (s[0] - 48) as u32, dflt)
    } else {
        scan_tail(s.drop_first(), dot, dflt, dflt)
    }
}

/// The note's frame budget: `120 / duration`, half as much again when
/// dotted, truncating.
pub open spec fn frames_of(duration: u32, dot: bool) -> u32 {
    let base = 120int / duration as int;
    if dot {
        (base + base / 2) as u32
    } else {
        base as u32
    }
}

/// The pitch-table row for an octave number, clamped to the table's range of
/// absolute octaves 4 through 7.
pub open spec fn octave_row(o: u32) -> int {
    if o < 4 {
        0
    } else if o > 7 {
        3
    } else {
        o - 4
    }
}

/// The duration divisor a token selects: its leading digits when they name a
/// positive number that fits, the header default otherwise.
pub open spec fn token_duration(tok: Seq<u8>, dflt: u32) -> u32 {
    match parse_u32_opt(tok.take(run_len(tok, |b: u8| is_digit(b)))) {
        Some(v) => if v >= 1 {
            v
        } else {
            dflt
        },
        None => dflt,
    }
}

/// What one note token decodes to under the given header defaults.
pub open spec fn decode_tone(dflt_duration: u32, dflt_octave: u32, tok: Seq<u8>) -> Tone {
    let dl = run_len(tok, |b: u8| is_digit(b));
    let duration = token_duration(tok, dflt_duration);
    let rest = tok.skip(dl);
    let nl = run_len(rest, |b: u8| is_note_char(b));
    match note_index(rest.take(nl)) {
        Some(ni) => {
            let t = scan_tail(rest.skip(nl), false, dflt_octave, dflt_octave);
            Tone { freq: pitch_freq(octave_row(t.1), ni), frames: frames_of(duration, t.0) }
        },
        None => silence(),
    }
}

/// Decodes one note token, given the header defaults.
fn decode_bytes(dflt_duration: u32, dflt_octave: u32, tok: &Vec<u8>) -> (t: Tone)
    requires
        dflt_duration >= 1,
    ensures
        t == decode_tone(dflt_duration, dflt_octave, tok@),
{
    // Leading digits: an explicit duration override.
    let mut dl: usize = 0;
    while dl < tok.len() && 48 <= tok[dl] && tok[dl] <= 57
        invariant
            dl <= tok@.len(),
            forall|i: int| 0 <= i < dl ==> is_digit(#[trigger] tok@[i]),
        decreases tok@.len() - dl,
    {
        dl += 1;
    }
    proof {
        lemma_run_len_is(tok@, |b: u8| is_digit(b), dl as int);
    }
    let duration: u32 = if dl > 0 {
        let digits = sub_vec(tok, 0, dl);
        proof {
            assert(digits@ =~= tok@.take(dl as int));
        }
        match parse_u32(&digits) {
            Some(v) => if v >= 1 {
                v
            } else {
                dflt_duration
            },
            None => dflt_duration,
        }
    } else {
        proof {
            assert(tok@.take(0) =~= Seq::<u8>::empty());
        }
        dflt_duration
    };
    assert(duration == token_duration(tok@, dflt_duration));
    let ghost rest = tok@.skip(dl as int);
    // The pitch name: a run of note characters.
    let mut j: usize = dl;
    while j < tok.len() && (tok[j] == 35 || (97 <= tok[j] && tok[j] <= 103) || tok[j] == 112)
        invariant
            dl <= j <= tok@.len(),
            rest == tok@.skip(dl as int),
            forall|i: int| 0 <= i < j - dl ==> is_note_char(#[trigger] rest[i]),
        decreases tok@.len() - j,
    {
        proof {
            assert(rest[j - dl] == tok@[j as int]);
        }
        j += 1;
    }
    let nl: usize = j - dl;
    proof {
        assert(nl < rest.len() ==> rest[nl as int] == tok@[(dl + nl) as int]);
        lemma_run_len_is(rest, |b: u8| is_note_char(b), nl as int);
    }
    let name = sub_vec(tok, dl, dl + nl);
    proof {
        assert(name@ =~= rest.take(nl as int));
    }
    let ni_opt: Option<usize> = if name.len() == 1 {
        let b = name[0];
        if b == 99 {
            Some(0)
        } else if b == 100 {
            Some(2)
        } else if b == 101 {
            Some(4)
        } else if b == 102 {
            Some(5)
        } else if b == 103 {
            Some(7)
        } else if b == 97 {
            Some(9)
        } else if b == 98 {
            Some(11)
        } else if b == 112 {
            Some(12)
        } else {
            None
        }
    } else if name.len() == 2 && name[1] == 35 {
        let b = name[0];
        if b == 99 {
            Some(1)
        } else if b == 100 {
            Some(3)
        } else if b == 102 {
            Some(6)
        } else if b == 103 {
            Some(8)
        } else if b == 97 {
            Some(10)
        } else {
            None
        }
    } else {
        None
    };
    let ni = match ni_opt {
        Some(ni) => ni,
        None => {
            return Tone { freq: 10000, frames: 0 };
        },
    };
    // Trailing modifiers: dots and an octave digit.
    let mut dot = false;
    let mut oct: u32 = dflt_octave;
    let mut i: usize = dl + nl;
    proof {
        assert(rest.skip(nl as int) =~= tok@.skip((dl + nl) as int));
    }
    while i < tok.len()
        invariant
            dl + nl <= i <= tok@.len(),
            rest == tok@.skip(dl as int),
            scan_tail(rest.skip(nl as int), false, dflt_octave, dflt_octave) == scan_tail(
                tok@.skip(i as int),
                dot,
                oct,
                dflt_octave,
            ),
        decreases tok@.len() - i,
    {
        proof {
            assert(tok@.skip(i as int)[0] == tok@[i as int]);
            assert(tok@.skip(i as int).drop_first() =~= tok@.skip(i + 1));
        }
        let b = tok[i];
        if b == 46 {
            dot = true;
        } else if 48 <= b && b <= 57 {
            oct = (b - 48) as u32;
        } else {
            oct = dflt_octave;
        }
        i += 1;
    }
    proof {
        assert(tok@.skip(tok@.len() as int) =~= Seq::<u8>::empty());
    }
    let base: u32 = 120 / duration;
    let frames: u32 = if dot {
        base + base / 2
    } else {
        base
    };
    let row: usize = if oct < 4 {
        0
    } else if oct > 7 {
        3
    } else {
        (oct - 4) as usize
    };
    let freq = note_freq(row, ni);
    Tone { freq, frames }
}

/// The value a header parameter assigns to `key`: `Some(v)` exactly when the
/// parameter is `<key>=<digits>` with `v` the digits' value, positive and
/// fitting a `u32`. Anything else leaves the default in force, silently.
pub open spec fn param_value(p: Seq<u8>, key: u8) -> Option<u32> {
    if p.len() >= 2 && p[0] == key && p[1] == 61 {
        match parse_u32_opt(p.skip(2)) {
            Some(v) => if v >= 1 {
                Some(v)
            } else {
                None
            },
            None => None,
        }
    } else {
        None
    }
}

/// The header's final value for `key`: the last parameter that validly
/// assigns it wins; with none, the compiled-in default stands.
pub open spec fn header_value(params: Seq<Seq<u8>>, key: u8, dflt: u32) -> u32
    decreases params.len(),
{
    if params.len() == 0 {
        dflt
    } else {
        match param_value(params.last(), key) {
            Some(v) => v,
            None => header_value(params.drop_last(), key, dflt),
        }
    }
}

/// A positive default can only be replaced by a positive value.
pub proof fn lemma_header_value_pos(params: Seq<Seq<u8>>, key: u8, dflt: u32)
    requires
        dflt >= 1,
    ensures
        header_value(params, key, dflt) >= 1,
    decreases params.len(),
{
    if params.len() > 0 && param_value(params.last(), key) is None {
        lemma_header_value_pos(params.drop_last(), key, dflt);
    }
}

/// The mathematical content of a parsed ringtone.
#[verifier::ext_equal]
pub ghost struct RingtoneV {
    /// The full source text, as bytes.
    pub r3tl: Seq<u8>,
    /// The name section (informational only).
    pub name: Seq<u8>,
    /// Default duration divisor for notes without an explicit one.
    pub duration: u32,
    /// Default octave for notes without an explicit one.
    pub octave: u32,
    /// Beats per minute; the frame timer runs at this rate.
    pub bpm: u32,
    /// The body's note tokens and the cursor into them.
    pub tones: Option<CursorV>,
}

/// The mathematical content of a note-token cursor.
#[verifier::ext_equal]
pub ghost struct CursorV {
    pub tokens: Seq<Seq<u8>>,
    pub pos: int,
}

/// What parsing recovers from ringtone text `"<name>:<header>:<body>"`:
/// sections split on `:`, header parameters split on `,` with defaults
/// duration 4, octave 6, 65 bpm, and the body's tokens split on `,` with the
/// cursor at the start. Meaningful when the text has at least three
/// sections; extra sections beyond the third are ignored.
pub open spec fn spec_parse(s: Seq<u8>) -> RingtoneV {
    let sections = split_on(s, 58);
    let params = split_on(sections[1], 44);
    RingtoneV {
        r3tl: s,
        name: sections[0],
        duration: header_value(params, 100, 4),
        octave: header_value(params, 111, 6),
        bpm: header_value(params, 98, 65),
        tones: Some(CursorV { tokens: split_on(sections[2], 44), pos: 0 }),
    }
}

/// A ringtone's session invariant: the header fields are positive and the
/// cursor stays within the token list.
pub open spec fn rt_wf(r: RingtoneV) -> bool {
    &&& r.duration >= 1
    &&& r.octave >= 1
    &&& r.bpm >= 1
    &&& match r.tones {
        Some(c) => 0 <= c.pos <= c.tokens.len(),
        None => true,
    }
}

/// The token the cursor stands on, if any is left.
pub open spec fn next_token(r: RingtoneV) -> Option<Seq<u8>> {
    match r.tones {
        Some(c) => if c.pos < c.tokens.len() {
            Some(c.tokens[c.pos])
        } else {
            None
        },
        None => None,
    }
}

/// The ringtone after its cursor moved past one token (unchanged when
/// exhausted).
pub open spec fn advance(r: RingtoneV) -> RingtoneV {
    match r.tones {
        Some(c) => if c.pos < c.tokens.len() {
            RingtoneV { tones: Some(CursorV { tokens: c.tokens, pos: c.pos + 1 }), ..r }
        } else {
            r
        },
        None => r,
    }
}

/// The body's note tokens, consumed one at a time.
pub struct NoteCursor {
    pub tokens: Vec<Vec<u8>>,
    pub pos: usize,
}

impl View for NoteCursor {
    type V = CursorV;

    open spec fn view(&self) -> CursorV {
        CursorV { tokens: self.tokens.deep_view(), pos: self.pos as int }
    }
}

/// A parsed ringtone: the header defaults and the note tokens of one
/// playback session.
pub struct Ringtone {
    pub r3tl: Vec<u8>,
    pub name: Vec<u8>,
    pub duration: u32,
    pub octave: u32,
    pub bpm: u32,
    pub tones: Option<NoteCursor>,
}

impl View for Ringtone {
    type V = RingtoneV;

    open spec fn view(&self) -> RingtoneV {
        RingtoneV {
            r3tl: self.r3tl@,
            name: self.name@,
            duration: self.duration,
            octave: self.octave,
            bpm: self.bpm,
            tones: match self.tones {
                Some(c) => Some(c@),
                None => None,
            },
        }
    }
}

/// Reads one `key=value` header parameter against `key`.
fn param_value_exec(p: &Vec<u8>, key: u8) -> (r: Option<u32>)
    ensures
        r == param_value(p@, key),
{
    if p.len() >= 2 && p[0] == key && p[1] == 61 {
        let tail = sub_vec(p, 2, p.len());
        proof {
            assert(tail@ =~= p@.skip(2));
        }
        match parse_u32(&tail) {
            Some(v) => if v >= 1 {
                Some(v)
            } else {
                None
            },
            None => None,
        }
    } else {
        None
    }
}

impl Ringtone {
    /// Parses ringtone text into header defaults and note tokens. The text
    /// must have the documented `name:header:body` shape, that is, at least
    /// three `:`-separated sections.
    pub fn parse(r3tl: &str) -> (r: Ringtone)
        requires
            split_on(r3tl.spec_bytes(), 58).len() >= 3,
        ensures
            r@ == spec_parse(r3tl.spec_bytes()),
            rt_wf(r@),
    {
        let bytes: Vec<u8> = r3tl.as_bytes_vec();
        let sections = split_bytes(&bytes, 58);
        proof {
            assert(sections@.len() == sections.deep_view().len());
            assert(sections@[0]@ =~= sections.deep_view()[0]);
            assert(sections@[1]@ =~= sections.deep_view()[1]);
            assert(sections@[2]@ =~= sections.deep_view()[2]);
        }
        let name = sections[0].clone();
        let params = split_bytes(&sections[1], 44);
        let ghost pv = params.deep_view();
        let mut duration: u32 = 4;
        let mut octave: u32 = 6;
        let mut bpm: u32 = 65;
        let mut i: usize = 0;
        proof {
            assert(pv.take(0) =~= Seq::<Seq<u8>>::empty());
        }
        while i < params.len()
            invariant
                i <= params@.len(),
                pv == params.deep_view(),
                duration == header_value(pv.take(i as int), 100, 4),
                octave == header_value(pv.take(i as int), 111, 6),
                bpm == header_value(pv.take(i as int), 98, 65),
            decreases params@.len() - i,
        {
            proof {
                assert(pv.take(i + 1).drop_last() =~= pv.take(i as int));
                assert(pv.take(i + 1).last() == pv[i as int]);
                assert(params@[i as int]@ =~= pv[i as int]);
            }
            match param_value_exec(&params[i], 100) {
                Some(v) => duration = v,
                None => {},
            }
            match param_value_exec(&params[i], 111) {
                Some(v) => octave = v,
                None => {},
            }
            match param_value_exec(&params[i], 98) {
                Some(v) => bpm = v,
                None => {},
            }
            i += 1;
        }
        proof {
            assert(pv.take(params@.len() as int) =~= pv);
        }
        let tokens = split_bytes(&sections[2], 44);
        let rt = Ringtone {
            r3tl: bytes,
            name,
            duration,
            octave,
            bpm,
            tones: Some(NoteCursor { tokens, pos: 0 }),
        };
        proof {
            lemma_header_value_pos(pv, 100, 4);
            lemma_header_value_pos(pv, 111, 6);
            lemma_header_value_pos(pv, 98, 65);
            assert(rt@ =~~= spec_parse(r3tl.spec_bytes()));
        }
        rt
    }

    /// Decodes one note token under this ringtone's header defaults.
    pub fn parse_tone(&self, tone: &str) -> (t: Tone)
        requires
            self.duration >= 1,
        ensures
            t == decode_tone(self.duration, self.octave, tone.spec_bytes()),
    {
        let bytes = tone.as_bytes_vec();
        decode_bytes(self.duration, self.octave, &bytes)
    }

    /// Decodes the token under the cursor and moves past it; `None` once the
    /// body is exhausted.
    pub fn next(&mut self) -> (r: Option<Tone>)
        requires
            old(self).duration >= 1,
        ensures
            final(self)@ == advance(old(self)@),
            r == match next_token(old(self)@) {
                Some(t) => Some(decode_tone(old(self).duration, old(self).octave, t)),
                None => None::<Tone>,
            },
    {
        let d = self.duration;
        let o = self.octave;
        match &mut self.tones {
            Some(cur) => {
                if cur.pos < cur.tokens.len() {
                    proof {
                        assert(cur.tokens@[cur.pos as int]@ =~= cur.tokens.deep_view()[
                            cur.pos as int]);
                    }
                    let t = decode_bytes(d, o, &cur.tokens[cur.pos]);
                    cur.pos = cur.pos + 1;
                    proof {
                        assert(self@ =~~= advance(old(self)@));
                    }
                    Some(t)
                } else {
                    None
                }
            },
            None => None,
        }
    }
}

/// The mathematical content of a player: its two timers, the session, the
/// wrapping frame counter and the tone it is holding.
#[verifier::ext_equal]
pub ghost struct PlayerV {
    pub frame_timer: Timer,
    pub sound_timer: Timer,
    pub ringtone: Option<RingtoneV>,
    pub frame: u32,
    pub tone: Tone,
}

/// The player after `stop`: the session is dropped and both timers are
/// disarmed and paused. Frame counter, tone and pending flags are left as
/// they were.
pub open spec fn stop_spec(p: PlayerV) -> PlayerV {
    PlayerV {
        ringtone: None,
        frame_timer: Timer { armed: false, running: false, ..p.frame_timer },
        sound_timer: Timer { armed: false, running: false, ..p.sound_timer },
        ..p
    }
}

/// The player after `play(s)`: any running session is stopped, the text is
/// parsed, the frame timer runs armed at the header's bpm rate, and the
/// frame counter restarts.
pub open spec fn play_spec(p: PlayerV, s: Seq<u8>) -> PlayerV {
    let stopped = stop_spec(p);
    PlayerV {
        frame_timer: Timer {
            running: true,
            armed: true,
            freq: spec_parse(s).bpm,
            ..stopped.frame_timer
        },
        ringtone: Some(spec_parse(s)),
        frame: 0,
        ..stopped
    }
}

/// The tail every non-final `frame_tick` ends with: the sound timer is armed
/// exactly while the held tone is audible (frequency above the rest
/// sentinel) and the counter has not passed the tone's frame budget; the
/// counter then advances modulo 64.
pub open spec fn arm_and_count(p: PlayerV, frame: u32) -> PlayerV {
    PlayerV {
        sound_timer: Timer {
            armed: p.tone.freq > 1 && frame <= p.tone.frames,
            ..p.sound_timer
        },
        frame: ((frame + 1) % 64) as u32,
        ..p
    }
}

/// The player after one `frame_tick`. Idle, it only acknowledges the
/// interrupt. Playing, on the first tick of a note cycle it decodes the next
/// token and programs the sound timer to its frequency, or stops when the
/// body is exhausted; every surviving tick then decides the sound timer's
/// armed state and advances the frame counter.
pub open spec fn frame_tick_spec(p: PlayerV) -> PlayerV {
    let q = PlayerV { frame_timer: Timer { pending: false, ..p.frame_timer }, ..p };
    match p.ringtone {
        None => q,
        Some(rt) => {
            if p.frame == 0 {
                match next_token(rt) {
                    None => stop_spec(q),
                    Some(tok) => {
                        let tone = decode_tone(rt.duration, rt.octave, tok);
                        arm_and_count(
                            PlayerV {
                                ringtone: Some(advance(rt)),
                                sound_timer: Timer { running: true, freq: tone.freq, ..q.sound_timer },
                                tone: tone,
                                ..q
                            },
                            p.frame,
                        )
                    },
                }
            } else {
                arm_and_count(q, p.frame)
            }
        },
    }
}

/// The player after one `sound_tick`: the interrupt is acknowledged and
/// nothing else moves. The audible square wave itself is toggled by the
/// scheduler task that owns the output pins.
pub open spec fn sound_tick_spec(p: PlayerV) -> PlayerV {
    PlayerV { sound_timer: Timer { pending: false, ..p.sound_timer }, ..p }
}

/// The player's invariant: the frame counter stays below 64; a playing
/// session is well formed and its frame timer runs armed; an idle player has
/// both timers disarmed and paused.
pub open spec fn player_wf(p: PlayerV) -> bool {
    &&& p.frame < 64
    &&& match p.ringtone {
        Some(rt) => rt_wf(rt) && p.frame_timer.running && p.frame_timer.armed,
        None => !p.frame_timer.armed && !p.frame_timer.running && !p.sound_timer.armed
            && !p.sound_timer.running,
    }
}

/// The playback state machine. It exclusively owns the frame and sound
/// timers; `frame_tick` and `sound_tick` are its interrupt entry points,
/// called by the scheduler's tasks under the priority-ceiling discipline of
/// [`crate::sched`].
pub struct Player {
    pub frame_timer: FrameTimer,
    pub sound_timer: SoundTimer,
    pub ringtone: Option<Ringtone>,
    pub frame: u32,
    pub tone: Tone,
}

impl View for Player {
    type V = PlayerV;

    open spec fn view(&self) -> PlayerV {
        PlayerV {
            frame_timer: self.frame_timer,
            sound_timer: self.sound_timer,
            ringtone: match self.ringtone {
                Some(rt) => Some(rt@),
                None => None,
            },
            frame: self.frame,
            tone: self.tone,
        }
    }
}

impl Player {
    /// A player as it exists right after boot: idle, holding the two stopped
    /// timers, with an inaudible placeholder tone.
    pub fn new(frame_timer: FrameTimer, sound_timer: SoundTimer) -> (p: Player)
        requires
            !frame_timer.running && !frame_timer.armed,
            !sound_timer.running && !sound_timer.armed,
        ensures
            p@ == (PlayerV {
                frame_timer,
                sound_timer,
                ringtone: None,
                frame: 0,
                tone: silence(),
            }),
            player_wf(p@),
    {
        Player {
            frame_timer,
            sound_timer,
            ringtone: None,
            tone: Tone { freq: 10000, frames: 0 },
            frame: 0,
        }
    }

    /// Starts a playback session: stops any current one, parses the text and
    /// arms the frame timer at the header's bpm-derived rate.
    pub fn play(&mut self, r3tl: &str)
        requires
            player_wf(old(self)@),
            split_on(r3tl.spec_bytes(), 58).len() >= 3,
        ensures
            final(self)@ == play_spec(old(self)@, r3tl.spec_bytes()),
            player_wf(final(self)@),
    {
        self.stop();
        let ringtone = Ringtone::parse(r3tl);
        self.frame_timer.start(ringtone.bpm);
        self.frame_timer.listen();
        self.ringtone = Some(ringtone);
        self.frame = 0;
        proof {
            assert(self@ =~~= play_spec(old(self)@, r3tl.spec_bytes()));
        }
    }

    /// True while a session is in progress.
    pub fn is_playing(&self) -> (b: bool)
        ensures
            b == (self@.ringtone is Some),
    {
        self.ringtone.is_some()
    }

    /// Ends the session: drops the ringtone and disarms and pauses both
    /// timers. Callable at any time and idempotent.
    pub fn stop(&mut self)
        requires
            player_wf(old(self)@),
        ensures
            final(self)@ == stop_spec(old(self)@),
            player_wf(final(self)@),
    {
        self.ringtone = None;
        self.frame_timer.unlisten();
        self.sound_timer.unlisten();
        self.frame_timer.pause();
        self.sound_timer.pause();
        proof {
            assert(self@ =~~= stop_spec(old(self)@));
        }
    }

    /// One frame-timer interrupt: advances playback as `frame_tick_spec`
    /// says.
    pub fn frame_tick(&mut self)
        requires
            player_wf(old(self)@),
        ensures
            final(self)@ == frame_tick_spec(old(self)@),
            player_wf(final(self)@),
    {
        self.frame_timer.clear_irq();
        if self.ringtone.is_none() {
            proof {
                assert(self@ =~~= frame_tick_spec(old(self)@));
            }
            return ;
        }
        if self.frame == 0 {
            let mut fetched: Option<Tone> = None;
            let mut exhausted = false;
            match &mut self.ringtone {
                Some(rt) => {
                    match rt.next() {
                        Some(t) => fetched = Some(t),
                        None => exhausted = true,
                    }
                },
                None => {},
            }
            if exhausted {
                self.stop();
                proof {
                    assert(self@ =~~= frame_tick_spec(old(self)@));
                }
                return ;
            }
            if let Some(t) = fetched {
                self.sound_timer.start(t.freq);
                self.tone = t;
            }
        }
        if self.tone.freq > 1 && self.frame <= self.tone.frames {
            self.sound_timer.listen();
        } else {
            self.sound_timer.unlisten();
        }
        self.frame = if self.frame == 63 {
            0
        } else {
            self.frame + 1
        };
        proof {
            assert(self@ =~~= frame_tick_spec(old(self)@));
        }
    }

    /// One sound-timer interrupt: acknowledges it and changes nothing else.
    pub fn sound_tick(&mut self)
        requires
            player_wf(old(self)@),
        ensures
            final(self)@ == sound_tick_spec(old(self)@),
            player_wf(final(self)@),
    {
        self.sound_timer.clear_irq();
        proof {
            assert(self@ =~~= sound_tick_spec(old(self)@));
        }
    }
}

/// Checks the `name:header:body` shape that `Ringtone::parse` and
/// `Player::play` require: the text must hold at least two `:` separators.
pub fn wellformed_r3tl(s: &str) -> (b: bool)
    ensures
        b == (split_on(s.spec_bytes(), 58).len() >= 3),
{
    let bytes = s.as_bytes_vec();
    let mut count: usize = 0;
    let mut i: usize = 0;
    proof {
        assert(bytes@.skip(0) =~= bytes@);
    }
    while i < bytes.len()
        invariant
            i <= bytes@.len(),
            count <= i,
            count + crate::parse::count_byte(bytes@.skip(i as int), 58) == crate::parse::count_byte(
                bytes@,
                58,
            ),
        decreases bytes@.len() - i,
    {
        proof {
            assert(bytes@.skip(i as int)[0] == bytes@[i as int]);
            assert(bytes@.skip(i as int).drop_first() =~= bytes@.skip(i + 1));
        }
        if bytes[i] == 58 {
            count += 1;
        }
        i += 1;
    }
    proof {
        assert(bytes@.skip(bytes@.len() as int) =~= Seq::<u8>::empty());
        crate::parse::lemma_split_on_len(bytes@, 58);
    }
    count >= 2
}

/// The tone updates as one whole value: a frame tick leaves it as it was or
/// replaces it with one completely decoded token, never a mixture of old and
/// new fields; a sound tick never writes it. Together with the scheduler's
/// ceiling exclusion ([`crate::sched::lemma_ceiling_excludes`]), a
/// `sound_tick` scheduled strictly between two `frame_tick`s can only ever
/// observe one of those whole values.
pub proof fn lemma_tone_update_whole(p: PlayerV)
    ensures
        sound_tick_spec(p).tone == p.tone,
        frame_tick_spec(p).tone == p.tone || (p.ringtone is Some && next_token(
            p.ringtone->Some_0,
        ) is Some && frame_tick_spec(p).tone == decode_tone(
            p.ringtone->Some_0.duration,
            p.ringtone->Some_0.octave,
            next_token(p.ringtone->Some_0)->Some_0,
        )),
{
}

/// The header fragment `d=<dn>,o=<om>,b=<bp>`.
pub open spec fn header_fragment(dn: Seq<u8>, om: Seq<u8>, bp: Seq<u8>) -> Seq<u8> {
    seq![100u8, 61u8] + dn + seq![44u8] + (seq![111u8, 61u8] + om) + seq![44u8] + (seq![
        98u8,
        61u8,
    ] + bp)
}

/// A header that never validly assigns `key` leaves its default in force.
pub proof fn lemma_header_defaults(params: Seq<Seq<u8>>, key: u8, dflt: u32)
    requires
        forall|i: int| 0 <= i < params.len() ==> param_value(#[trigger] params[i], key) is None,
    ensures
        header_value(params, key, dflt) == dflt,
    decreases params.len(),
{
    if params.len() > 0 {
        lemma_header_defaults(params.drop_last(), key, dflt);
    }
}

/// For every valid header fragment `d=N,o=M,b=P` the tokenizer recovers
/// duration `N`, octave `M` and bpm `P` exactly, along with the name, for
/// any name without a `:` and any body.
pub proof fn lemma_header_recovery(
    name: Seq<u8>,
    dn: Seq<u8>,
    om: Seq<u8>,
    bp: Seq<u8>,
    body: Seq<u8>,
    n: u32,
    m: u32,
    p: u32,
)
    requires
        forall|i: int| 0 <= i < name.len() ==> name[i] != 58,
        parse_u32_opt(dn) == Some(n) && n >= 1,
        parse_u32_opt(om) == Some(m) && m >= 1,
        parse_u32_opt(bp) == Some(p) && p >= 1,
    ensures
        ({
            let text = name + seq![58u8] + (header_fragment(dn, om, bp) + seq![58u8] + body);
            &&& split_on(text, 58).len() >= 3
            &&& spec_parse(text).name == name
            &&& spec_parse(text).duration == n
            &&& spec_parse(text).octave == m
            &&& spec_parse(text).bpm == p
        }),
{
    let header = header_fragment(dn, om, bp);
    let text = name + seq![58u8] + (header + seq![58u8] + body);
    let p1 = seq![100u8, 61u8] + dn;
    let p2 = seq![111u8, 61u8] + om;
    let p3 = seq![98u8, 61u8] + bp;
    assert(all_digits(dn) && all_digits(om) && all_digits(bp));
    assert(forall|i: int| 0 <= i < header.len() ==> header[i] != 58) by {
        assert(forall|i: int| 0 <= i < dn.len() ==> is_digit(#[trigger] dn[i]));
        assert(forall|i: int| 0 <= i < om.len() ==> is_digit(#[trigger] om[i]));
        assert(forall|i: int| 0 <= i < bp.len() ==> is_digit(#[trigger] bp[i]));
    }
    crate::parse::lemma_split_on_concat(name, header + seq![58u8] + body, 58);
    crate::parse::lemma_split_on_concat(header, body, 58);
    assert(text =~= name + seq![58u8] + (header + seq![58u8] + body));
    let sections = split_on(text, 58);
    crate::parse::lemma_split_on_len(body, 58);
    assert(sections =~= seq![name, header] + split_on(body, 58));
    assert(sections.len() >= 3);
    assert(sections[0] == name);
    assert(sections[1] == header);
    // The header splits into exactly the three parameters.
    assert(forall|i: int| 0 <= i < p1.len() ==> p1[i] != 44);
    assert(forall|i: int| 0 <= i < p2.len() ==> p2[i] != 44);
    assert(forall|i: int| 0 <= i < p3.len() ==> p3[i] != 44);
    assert(header =~= p1 + seq![44u8] + (p2 + seq![44u8] + p3));
    crate::parse::lemma_split_on_concat(p1, p2 + seq![44u8] + p3, 44);
    crate::parse::lemma_split_on_concat(p2, p3, 44);
    crate::parse::lemma_split_on_whole(p3, 44);
    let params = split_on(header, 44);
    assert(params =~~= seq![p1, p2, p3]);
    // Each parameter answers for exactly its own key.
    assert(p1.skip(2) =~= dn);
    assert(p2.skip(2) =~= om);
    assert(p3.skip(2) =~= bp);
    assert(param_value(p1, 100) == Some(n));
    assert(param_value(p2, 111) == Some(m));
    assert(param_value(p3, 98) == Some(p));
    assert(param_value(p2, 100) is None && param_value(p3, 100) is None);
    assert(param_value(p1, 111) is None && param_value(p3, 111) is None);
    assert(param_value(p1, 98) is None && param_value(p2, 98) is None);
    let ps1 = seq![p1];
    let ps2 = seq![p1, p2];
    assert(params.drop_last() =~= ps2);
    assert(ps2.drop_last() =~= ps1);
    assert(header_value(ps1, 100, 4) == n);
    assert(header_value(ps2, 100, 4) == n);
    assert(header_value(params, 100, 4) == n);
    assert(header_value(ps2, 111, 6) == m);
    assert(header_value(params, 111, 6) == m);
    assert(header_value(params, 98, 65) == p);
}

/// A text whose header section assigns nothing keeps all three compiled-in
/// defaults: duration 4, octave 6, 65 bpm.
pub proof fn lemma_empty_header_defaults(name: Seq<u8>, body: Seq<u8>)
    requires
        forall|i: int| 0 <= i < name.len() ==> name[i] != 58,
    ensures
        ({
            let text = name + seq![58u8] + (seq![58u8] + body);
            &&& split_on(text, 58).len() >= 3
            &&& spec_parse(text).duration == 4
            &&& spec_parse(text).octave == 6
            &&& spec_parse(text).bpm == 65
        }),
{
    let text = name + seq![58u8] + (seq![58u8] + body);
    let header = Seq::<u8>::empty();
    crate::parse::lemma_split_on_concat(name, seq![58u8] + body, 58);
    crate::parse::lemma_split_on_concat(header, body, 58);
    assert(header + seq![58u8] + body =~= seq![58u8] + body);
    crate::parse::lemma_split_on_len(body, 58);
    let sections = split_on(text, 58);
    assert(sections =~= seq![name, header] + split_on(body, 58));
    assert(sections[1] == header);
    crate::parse::lemma_split_on_whole(header, 44);
    let params = split_on(header, 44);
    assert(params =~= seq![header]);
    assert(param_value(header, 100) is None);
    assert(param_value(header, 111) is None);
    assert(param_value(header, 98) is None);
    lemma_header_defaults(params, 100, 4);
    lemma_header_defaults(params, 111, 6);
    lemma_header_defaults(params, 98, 65);
}

/// A token without a duration prefix takes the header's default duration,
/// whatever that default is.
pub proof fn lemma_default_duration(tok: Seq<u8>, dflt: u32)
    requires
        tok.len() == 0 || !is_digit(tok[0]),
    ensures
        token_duration(tok, dflt) == dflt,
{
    assert(run_len(tok, |b: u8| is_digit(b)) == 0);
    assert(tok.take(0) =~= Seq::<u8>::empty());
}

/// A note's frame budget is `120 / duration`, and a dotted note gets half as
/// much again, in truncating integer arithmetic.
pub proof fn lemma_frames_budget(duration: u32, dot: bool)
    requires
        duration >= 1,
    ensures
        !dot ==> frames_of(duration, dot) == 120int / duration as int,
        dot ==> frames_of(duration, dot) == 120int / duration as int + (120int / duration as int)
            / 2,
{
}

/// The rest mark `p` decodes to the silence-sentinel frequency of the pitch
/// table no matter which duration or octave modifiers surround it.
pub proof fn lemma_rest_silent(dflt_duration: u32, dflt_octave: u32, tok: Seq<u8>)
    requires
        ({
            let rest = tok.skip(run_len(tok, |b: u8| is_digit(b)));
            rest.take(run_len(rest, |b: u8| is_note_char(b))) == seq![112u8]
        }),
    ensures
        decode_tone(dflt_duration, dflt_octave, tok).freq == 1,
{
    let rest = tok.skip(run_len(tok, |b: u8| is_digit(b)));
    let nl = run_len(rest, |b: u8| is_note_char(b));
    assert(note_index(rest.take(nl)) == Some(12int));
    let t = scan_tail(rest.skip(nl), false, dflt_octave, dflt_octave);
    assert(0 <= octave_row(t.1) < 4);
    assert(pitch_freq(octave_row(t.1), 12) == 1);
}

/// Stopping an idle player is a no-op: it stays idle and nothing about it
/// changes.
pub proof fn lemma_stop_idle_noop(p: PlayerV)
    requires
        player_wf(p),
        p.ringtone is None,
    ensures
        stop_spec(p) == p,
{
    assert(stop_spec(p) =~~= p);
}

/// The player after `n` frame ticks.
pub open spec fn ticks(p: PlayerV, n: nat) -> PlayerV
    decreases n,
{
    if n == 0 {
        p
    } else {
        frame_tick_spec(ticks(p, (n - 1) as nat))
    }
}

/// Tick counts compose.
pub proof fn lemma_ticks_add(p: PlayerV, a: nat, b: nat)
    ensures
        ticks(p, a + b) == ticks(ticks(p, a), b),
    decreases b,
{
    if b > 0 {
        lemma_ticks_add(p, a, (b - 1) as nat);
        assert(a + b - 1 == a + (b - 1) as nat);
    }
}

/// A frame tick on an idle player only acknowledges the interrupt; with
/// none pending it has no effect at all, however often it is repeated.
pub proof fn lemma_idle_tick_noop(p: PlayerV, n: nat)
    requires
        p.ringtone is None,
    ensures
        frame_tick_spec(p) == (PlayerV {
            frame_timer: Timer { pending: false, ..p.frame_timer },
            ..p
        }),
        !p.frame_timer.pending ==> ticks(p, n) == p,
    decreases n,
{
    assert(frame_tick_spec(p) =~~= (PlayerV {
        frame_timer: Timer { pending: false, ..p.frame_timer },
        ..p
    }));
    if !p.frame_timer.pending {
        assert(frame_tick_spec(p) =~~= p);
        if n > 0 {
            lemma_idle_tick_noop(p, (n - 1) as nat);
        }
    }
}

/// Ticks after the first one of a note cycle leave the session and the held
/// tone alone and only walk the frame counter back around to zero.
pub proof fn lemma_run_to_frame0(q: PlayerV, rt: RingtoneV)
    requires
        player_wf(q),
        q.ringtone == Some(rt),
        1 <= q.frame <= 63,
    ensures
        ({
            let r = ticks(q, (64 - q.frame) as nat);
            &&& player_wf(r)
            &&& r.ringtone == Some(rt)
            &&& r.frame == 0
            &&& r.tone == q.tone
        }),
    decreases 64 - q.frame,
{
    let q1 = frame_tick_spec(q);
    assert(ticks(q, 0) == q);
    assert(ticks(q, 1) == q1);
    if q.frame == 63 {
        assert(q1.frame == 0);
    } else {
        lemma_run_to_frame0(q1, rt);
        lemma_ticks_add(q, 1, (63 - q.frame) as nat);
        assert((64 - q.frame) as nat == 1 + (63 - q.frame) as nat);
        assert((64 - q1.frame) as nat == (63 - q.frame) as nat);
    }
}

/// One full 64-tick note cycle: starting a cycle with a token left, the
/// player decodes exactly that one token, holds it as its tone, and arrives
/// back at frame 0 with the cursor one step further, still playing.
pub proof fn lemma_note_cycle(p: PlayerV, rt: RingtoneV, tok: Seq<u8>)
    requires
        player_wf(p),
        p.ringtone == Some(rt),
        p.frame == 0,
        next_token(rt) == Some(tok),
    ensures
        ({
            let r = ticks(p, 64);
            &&& player_wf(r)
            &&& r.ringtone == Some(advance(rt))
            &&& r.frame == 0
            &&& r.tone == decode_tone(rt.duration, rt.octave, tok)
        }),
{
    let p1 = frame_tick_spec(p);
    assert(ticks(p, 0) == p);
    assert(ticks(p, 1) == p1);
    assert(p1.ringtone == Some(advance(rt)));
    assert(p1.frame == 1);
    assert(p1.tone == decode_tone(rt.duration, rt.octave, tok));
    assert(rt_wf(advance(rt)));
    lemma_run_to_frame0(p1, advance(rt));
    lemma_ticks_add(p, 1, 63);
}

/// On the first tick of a cycle with no token left, the player stops
/// itself: it goes idle with both timers disarmed and paused.
pub proof fn lemma_exhaust_tick(p: PlayerV, rt: RingtoneV)
    requires
        player_wf(p),
        p.ringtone == Some(rt),
        p.frame == 0,
        next_token(rt) is None,
    ensures
        frame_tick_spec(p) == stop_spec(
            PlayerV { frame_timer: Timer { pending: false, ..p.frame_timer }, ..p },
        ),
        frame_tick_spec(p).ringtone is None,
        player_wf(frame_tick_spec(p)),
{
}

/// Exhaustion: started at the top of a note cycle with `k` tokens left, the
/// player performs exactly one note-advance per 64-tick cycle — after
/// `64 * k` ticks it is still playing and has consumed all `k` tokens — and
/// the single tick after that sends it to idle, where, once the pending
/// interrupt is acknowledged, further ticks have no effect until a new
/// `play`.
pub proof fn lemma_exhaustion(p: PlayerV, rt: RingtoneV, c: CursorV, k: nat)
    requires
        player_wf(p),
        p.ringtone == Some(rt),
        p.frame == 0,
        rt.tones == Some(c),
        k == c.tokens.len() - c.pos,
    ensures
        ({
            let r = ticks(p, 64 * k);
            &&& player_wf(r)
            &&& r.ringtone is Some
            &&& r.frame == 0
            &&& next_token(r.ringtone->Some_0) is None
            &&& ticks(p, 64 * k + 1).ringtone is None
            &&& player_wf(ticks(p, 64 * k + 1))
        }),
    decreases k,
{
    if k == 0 {
        assert(ticks(p, 0) == p);
        assert(next_token(rt) is None);
        lemma_exhaust_tick(p, rt);
        assert(ticks(p, 1) == frame_tick_spec(p));
    } else {
        let tok = c.tokens[c.pos];
        assert(next_token(rt) == Some(tok));
        lemma_note_cycle(p, rt, tok);
        let p1 = ticks(p, 64);
        lemma_exhaustion(
            p1,
            advance(rt),
            CursorV { tokens: c.tokens, pos: c.pos + 1 },
            (k - 1) as nat,
        );
        lemma_ticks_add(p, 64, 64 * (k - 1) as nat);
        assert(64 * k == 64 + 64 * (k - 1) as nat);
        lemma_ticks_add(p, 64, 64 * (k - 1) as nat + 1);
        assert(64 * k + 1 == 64 + (64 * (k - 1) as nat + 1));
    }
}

} // verus!
