//! The compiled-in ringtone table: a fixed, ordered list of ringtone texts
//! baked into the firmware. A rotating counter, advanced on every button
//! press, selects the next entry modulo the table's length.

use vstd::prelude::*;

use vstd::string::StringSliceAdditionalSpecFns;

verus! {

/// How many ringtones the table holds.
pub fn ringtone_count() -> (n: usize)
    ensures
        n == 10,
{
    10
}

/// The bytes of the `i`-th table entry (the last entry for any index past
/// the table).
pub open spec fn ringtone_bytes(i: int) -> Seq<u8> {
    if i == 0 {
        "Fur Elise:d=4,o=5,b=200:8e7,8d#7,8e7,8d#7,8e7,8b6,8d7,8c7,8a6,8e,8a,8c6,8e6,8a6,8b6,8e,8g#,8e6,8g#6,8b6,8c7,8e,8a,8e6,8e7,8d#7,8e7,8d#7,8e7,8b6,8d7,8c7,8a6,8e,8a,8c6,8e6,8a6,8b6,8e,8g#,8e6,8c7,8b6,2a6,".spec_bytes()
    } else     if i == 1 {
        "Simpsons:d=4,o=5,b=160:32p,c.6,e6,f#6,8a6,g.6,e6,c6,8a,8f#,8f#,8f#,2g".spec_bytes()
    } else     if i == 2 {
        "Xfiles:d=4,o=5,b=160:e,b,a,b,d6,2b.,1p,e,b,a,b,e6,2b.,1p,g6,f#6,e6,d6,e6,2b.,1p,g6,f#6,e6,d6,f#6,2b.,1p,e,b,a,b,d6,2b.,1p,e,b,a,b,e6,2b.,1p".spec_bytes()
    } else     if i == 3 {
        "MahnaMahna:d=16,o=6,b=180:c#,c.,b5,8a#.5,8f.,4g#,a#,g.,4d#,8p,c#,c.,b5,8a#.5,8f.,g#.,8a#.,4g,8p,c#,c.,b5,8a#.5,8f.,4g#,f,g.,8d#.,f,g.,8d#.,f,8g,8d#.,f,8g,d#,8c,a#5,8d#.,8d#.,4d#,8d#.".spec_bytes()
    } else     if i == 4 {
        "Looney:d=4,o=5,b=180:32p,c6,8f6,8e6,8d6,8c6,a.,8c6,8f6,8e6,8d6,8d#6,e.6,8e6,8e6,8c6,8d6,8c6,8e6,8c6,8d6,8a,8c6,8g,8a#,8a,8f".spec_bytes()
    } else     if i == 5 {
        "Muppets:d=4,o=5,b=160:c6,c6,a,b,8a,b,g,p,c6,c6,a,8b,8a,8p,g.,p,e,e,g,f,8e,f,8c6,8c,8d,e,8e,8e,8p,8e,g,2p,c6,c6,a,b,8a,b,g,p,c6,c6,a,8b,a,g.,p,e,e,g,f,8e,f,8c6,8c,8d,e,8e,d,8d,c".spec_bytes()
    } else     if i == 6 {
        "FunkyTown:d=4,o=4,b=125:8c6,8c6,8a#5,8c6,8p,8g5,8p,8g5,8c6,8f6,8e6,8c6,2p,8c6,8c6,8a#5,8c6,8p,8g5,8p,8g5,8c6,8f6,8e6,8c6".spec_bytes()
    } else     if i == 7 {
        "Godfather:d=8,o=7,b=120:e5,a5,c6,b5,a5,c6,a5,b5,a5,f5,g5,2e5,e5,e5,a5,c6,b5,a5,c6,a5,b5,a5,e5,e5,2d5,d5,d5,f5,g#5,2b5,b5,d5,f5,g#5,2a5,a5,c5".spec_bytes()
    } else     if i == 8 {
        "7NationA:d=4,o=6,b=170:e.,8e,8g,16p,8e,32p,8d,c.,16d,16c,b5,p,32p,e.,8e,8g,16p,8e,32p,8d,c.,16d,16c,b5,p,32p,e.,8e,8g,16p,8e,32p,8d,c.,16d,16c,b5,p,32p,e.,8e,8g,16p,8e,32p,8d,c,16d,b5".spec_bytes()
    } else {
        "Star Trek:d=4,o=5,b=120:8f.,16a#,d#.6,8d6,16a#.,16g.,16c.6,f6".spec_bytes()
    }
}

/// The `i`-th compiled-in ringtone text.
pub fn ringtone_at(i: usize) -> (s: &'static str)
    requires
        i < 10,
    ensures
        s.spec_bytes() == ringtone_bytes(i as int),
{
    match i {
        0 => "Fur Elise:d=4,o=5,b=200:8e7,8d#7,8e7,8d#7,8e7,8b6,8d7,8c7,8a6,8e,8a,8c6,8e6,8a6,8b6,8e,8g#,8e6,8g#6,8b6,8c7,8e,8a,8e6,8e7,8d#7,8e7,8d#7,8e7,8b6,8d7,8c7,8a6,8e,8a,8c6,8e6,8a6,8b6,8e,8g#,8e6,8c7,8b6,2a6,",
        1 => "Simpsons:d=4,o=5,b=160:32p,c.6,e6,f#6,8a6,g.6,e6,c6,8a,8f#,8f#,8f#,2g",
        2 => "Xfiles:d=4,o=5,b=160:e,b,a,b,d6,2b.,1p,e,b,a,b,e6,2b.,1p,g6,f#6,e6,d6,e6,2b.,1p,g6,f#6,e6,d6,f#6,2b.,1p,e,b,a,b,d6,2b.,1p,e,b,a,b,e6,2b.,1p",
        3 => "MahnaMahna:d=16,o=6,b=180:c#,c.,b5,8a#.5,8f.,4g#,a#,g.,4d#,8p,c#,c.,b5,8a#.5,8f.,g#.,8a#.,4g,8p,c#,c.,b5,8a#.5,8f.,4g#,f,g.,8d#.,f,g.,8d#.,f,8g,8d#.,f,8g,d#,8c,a#5,8d#.,8d#.,4d#,8d#.",
        4 => "Looney:d=4,o=5,b=180:32p,c6,8f6,8e6,8d6,8c6,a.,8c6,8f6,8e6,8d6,8d#6,e.6,8e6,8e6,8c6,8d6,8c6,8e6,8c6,8d6,8a,8c6,8g,8a#,8a,8f",
        5 => "Muppets:d=4,o=5,b=160:c6,c6,a,b,8a,b,g,p,c6,c6,a,8b,8a,8p,g.,p,e,e,g,f,8e,f,8c6,8c,8d,e,8e,8e,8p,8e,g,2p,c6,c6,a,b,8a,b,g,p,c6,c6,a,8b,a,g.,p,e,e,g,f,8e,f,8c6,8c,8d,e,8e,d,8d,c",
        6 => "FunkyTown:d=4,o=4,b=125:8c6,8c6,8a#5,8c6,8p,8g5,8p,8g5,8c6,8f6,8e6,8c6,2p,8c6,8c6,8a#5,8c6,8p,8g5,8p,8g5,8c6,8f6,8e6,8c6",
        7 => "Godfather:d=8,o=7,b=120:e5,a5,c6,b5,a5,c6,a5,b5,a5,f5,g5,2e5,e5,e5,a5,c6,b5,a5,c6,a5,b5,a5,e5,e5,2d5,d5,d5,f5,g#5,2b5,b5,d5,f5,g#5,2a5,a5,c5",
        8 => "7NationA:d=4,o=6,b=170:e.,8e,8g,16p,8e,32p,8d,c.,16d,16c,b5,p,32p,e.,8e,8g,16p,8e,32p,8d,c.,16d,16c,b5,p,32p,e.,8e,8g,16p,8e,32p,8d,c.,16d,16c,b5,p,32p,e.,8e,8g,16p,8e,32p,8d,c,16d,b5",
        _ => "Star Trek:d=4,o=5,b=120:8f.,16a#,d#.6,8d6,16a#.,16g.,16c.6,f6",
    }
}

} // verus!
