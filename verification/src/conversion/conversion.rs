use vstd::prelude::*;
use vstd::string::*;
use crate::keyer_io::keyer_io::{KeyerEdgeDurationMs, KeyingEvent, KeyingTimedEvent};

verus! {

/// The Morse code of a character, as dots, dashes and (for the space) a space; letters in
/// either case have the same code. `None` for a character with no code (prosigns are not
/// supported).
pub open spec fn morse_code(ch: char) -> Option<Seq<char>> {
    match ch {
        'A' | 'a' => Some(seq!['.', '-']),
        'B' | 'b' => Some(seq!['-', '.', '.', '.']),
        'C' | 'c' => Some(seq!['-', '.', '-', '.']),
        'D' | 'd' => Some(seq!['-', '.', '.']),
        'E' | 'e' => Some(seq!['.']),
        'F' | 'f' => Some(seq!['.', '.', '-', '.']),
        'G' | 'g' => Some(seq!['-', '-', '.']),
        'H' | 'h' => Some(seq!['.', '.', '.', '.']),
        'I' | 'i' => Some(seq!['.', '.']),
        'J' | 'j' => Some(seq!['.', '-', '-', '-']),
        'K' | 'k' => Some(seq!['-', '.', '-']),
        'L' | 'l' => Some(seq!['.', '-', '.', '.']),
        'M' | 'm' => Some(seq!['-', '-']),
        'N' | 'n' => Some(seq!['-', '.']),
        'O' | 'o' => Some(seq!['-', '-', '-']),
        'P' | 'p' => Some(seq!['.', '-', '-', '.']),
        'Q' | 'q' => Some(seq!['-', '-', '.', '-']),
        'R' | 'r' => Some(seq!['.', '-', '.']),
        'S' | 's' => Some(seq!['.', '.', '.']),
        'T' | 't' => Some(seq!['-']),
        'U' | 'u' => Some(seq!['.', '.', '-']),
        'V' | 'v' => Some(seq!['.', '.', '.', '-']),
        'W' | 'w' => Some(seq!['.', '-', '-']),
        'X' | 'x' => Some(seq!['-', '.', '.', '-']),
        'Y' | 'y' => Some(seq!['-', '.', '-', '-']),
        'Z' | 'z' => Some(seq!['-', '-', '.', '.']),
        '0' => Some(seq!['-', '-', '-', '-', '-']),
        '1' => Some(seq!['.', '-', '-', '-', '-']),
        '2' => Some(seq!['.', '.', '-', '-', '-']),
        '3' => Some(seq!['.', '.', '.', '-', '-']),
        '4' => Some(seq!['.', '.', '.', '.', '-']),
        '5' => Some(seq!['.', '.', '.', '.', '.']),
        '6' => Some(seq!['-', '.', '.', '.', '.']),
        '7' => Some(seq!['-', '-', '.', '.', '.']),
        '8' => Some(seq!['-', '-', '-', '.', '.']),
        '9' => Some(seq!['-', '-', '-', '-', '.']),
        '.' => Some(seq!['.', '-', '.', '-', '.', '-']),
        '/' => Some(seq!['-', '.', '.', '-', '.']),
        ',' => Some(seq!['-', '-', '.', '.', '-', '-']),
        '?' => Some(seq!['.', '.', '-', '-', '.', '.']),
        ' ' => Some(seq![' ']),
        '=' => Some(seq!['-', '.', '.', '.', '-']),
        '|' => Some(seq!['.', '.', '.', '-', '.', '-']),
        '+' => Some(seq!['.', '-', '.', '-', '.']),
        _ => None,
    }
}

/// The number that a run of dots and dashes spells when read as base three, a dot being one
/// and a dash two; no two different runs spell the same number.
pub open spec fn dots_and_dashes_number(code: Seq<char>) -> nat
    decreases code.len(),
{
    if code.len() == 0 {
        0
    } else {
        dots_and_dashes_number(code.drop_last()) * 3 + (if code.last() == '.' {
            1nat
        } else {
            2nat
        })
    }
}

/// The character that International Morse Code sends as the run of dots and dashes spelling
/// `number` in base three (a dot one, a dash two), for the characters this converter knows.
pub open spec fn morse_character(number: nat) -> Option<char> {
    if number == 1 {
        // .
        Some('E')
    } else if number == 2 {
        // -
        Some('T')
    } else if number == 4 {
        // ..
        Some('I')
    } else if number == 5 {
        // .-
        Some('A')
    } else if number == 7 {
        // -.
        Some('N')
    } else if number == 8 {
        // --
        Some('M')
    } else if number == 13 {
        // ...
        Some('S')
    } else if number == 14 {
        // ..-
        Some('U')
    } else if number == 16 {
        // .-.
        Some('R')
    } else if number == 17 {
        // .--
        Some('W')
    } else if number == 22 {
        // -..
        Some('D')
    } else if number == 23 {
        // -.-
        Some('K')
    } else if number == 25 {
        // --.
        Some('G')
    } else if number == 26 {
        // ---
        Some('O')
    } else if number == 40 {
        // ....
        Some('H')
    } else if number == 41 {
        // ...-
        Some('V')
    } else if number == 43 {
        // ..-.
        Some('F')
    } else if number == 49 {
        // .-..
        Some('L')
    } else if number == 52 {
        // .--.
        Some('P')
    } else if number == 53 {
        // .---
        Some('J')
    } else if number == 67 {
        // -...
        Some('B')
    } else if number == 68 {
        // -..-
        Some('X')
    } else if number == 70 {
        // -.-.
        Some('C')
    } else if number == 71 {
        // -.--
        Some('Y')
    } else if number == 76 {
        // --..
        Some('Z')
    } else if number == 77 {
        // --.-
        Some('Q')
    } else if number == 121 {
        // .....
        Some('5')
    } else if number == 122 {
        // ....-
        Some('4')
    } else if number == 125 {
        // ...--
        Some('3')
    } else if number == 134 {
        // ..---
        Some('2')
    } else if number == 151 {
        // .-.-.
        Some('+')
    } else if number == 161 {
        // .----
        Some('1')
    } else if number == 202 {
        // -....
        Some('6')
    } else if number == 203 {
        // -...-
        Some('=')
    } else if number == 205 {
        // -..-.
        Some('/')
    } else if number == 229 {
        // --...
        Some('7')
    } else if number == 238 {
        // ---..
        Some('8')
    } else if number == 241 {
        // ----.
        Some('9')
    } else if number == 242 {
        // -----
        Some('0')
    } else if number == 374 {
        // ...-.-
        Some('|')
    } else if number == 400 {
        // ..--..
        Some('?')
    } else if number == 455 {
        // .-.-.-
        Some('.')
    } else if number == 692 {
        // --..--
        Some(',')
    } else {
        None
    }
}

/// The character itself, or its capital for a lower-case ASCII letter.
pub open spec fn ascii_upper(c: char) -> char {
    if 'a' <= c && c <= 'z' {
        ((c as int) - 32) as char
    } else {
        c
    }
}

/// The codes are International Morse Code: each character but the space is sent as a run of
/// dots and dashes, and that run is the one the International Morse Code table gives for it (a
/// lower-case letter as its capital). So no two characters share a code, but for the two
/// cases of a letter.
pub proof fn lemma_morse_codes_are_international(c: char)
    requires
        morse_code(c) is Some,
        c != ' ',
    ensures
        forall|i: int|
            0 <= i < (morse_code(c)->0).len() ==> #[trigger] (morse_code(c)->0)[i] == '.' || (
            morse_code(c)->0)[i] == '-',
        morse_character(dots_and_dashes_number(morse_code(c)->0)) == Some(ascii_upper(c)),
{
    reveal_with_fuel(dots_and_dashes_number, 7);
}

/// Two characters with the same Morse code are the same character, up to the case of a letter.
pub proof fn lemma_morse_codes_are_distinct(a: char, b: char)
    requires
        morse_code(a) is Some,
        morse_code(a) == morse_code(b),
    ensures
        ascii_upper(a) == ascii_upper(b),
{
    if a == ' ' || b == ' ' {
        assert(morse_code(' ')->0 == seq![' ']);
        if a != ' ' {
            lemma_morse_codes_are_international(a);
            assert((morse_code(a)->0)[0] == ' ');
        }
        if b != ' ' {
            lemma_morse_codes_are_international(b);
            assert((morse_code(b)->0)[0] == ' ');
        }
    } else {
        lemma_morse_codes_are_international(a);
        lemma_morse_codes_are_international(b);
    }
}

/// Converts a character to its Morse code.
pub fn char_to_morse(ch: char) -> (morse: String)
    requires
        morse_code(ch) is Some,
    ensures
        morse@ == morse_code(ch)->0,
{
    match ch {
        'A' | 'a' => {
            let s = ".-";
            proof {
                reveal_strlit(".-");
            }
            s.to_owned()
        },
        'B' | 'b' => {
            let s = "-...";
            proof {
                reveal_strlit("-...");
            }
            s.to_owned()
        },
        'C' | 'c' => {
            let s = "-.-.";
            proof {
                reveal_strlit("-.-.");
            }
            s.to_owned()
        },
        'D' | 'd' => {
            let s = "-..";
            proof {
                reveal_strlit("-..");
            }
            s.to_owned()
        },
        'E' | 'e' => {
            let s = ".";
            proof {
                reveal_strlit(".");
            }
            s.to_owned()
        },
        'F' | 'f' => {
            let s = "..-.";
            proof {
                reveal_strlit("..-.");
            }
            s.to_owned()
        },
        'G' | 'g' => {
            let s = "--.";
            proof {
                reveal_strlit("--.");
            }
            s.to_owned()
        },
        'H' | 'h' => {
            let s = "....";
            proof {
                reveal_strlit("....");
            }
            s.to_owned()
        },
        'I' | 'i' => {
            let s = "..";
            proof {
                reveal_strlit("..");
            }
            s.to_owned()
        },
        'J' | 'j' => {
            let s = ".---";
            proof {
                reveal_strlit(".---");
            }
            s.to_owned()
        },
        'K' | 'k' => {
            let s = "-.-";
            proof {
                reveal_strlit("-.-");
            }
            s.to_owned()
        },
        'L' | 'l' => {
            let s = ".-..";
            proof {
                reveal_strlit(".-..");
            }
            s.to_owned()
        },
        'M' | 'm' => {
            let s = "--";
            proof {
                reveal_strlit("--");
            }
            s.to_owned()
        },
        'N' | 'n' => {
            let s = "-.";
            proof {
                reveal_strlit("-.");
            }
            s.to_owned()
        },
        'O' | 'o' => {
            let s = "---";
            proof {
                reveal_strlit("---");
            }
            s.to_owned()
        },
        'P' | 'p' => {
            let s = ".--.";
            proof {
                reveal_strlit(".--.");
            }
            s.to_owned()
        },
        'Q' | 'q' => {
            let s = "--.-";
            proof {
                reveal_strlit("--.-");
            }
            s.to_owned()
        },
        'R' | 'r' => {
            let s = ".-.";
            proof {
                reveal_strlit(".-.");
            }
            s.to_owned()
        },
        'S' | 's' => {
            let s = "...";
            proof {
                reveal_strlit("...");
            }
            s.to_owned()
        },
        'T' | 't' => {
            let s = "-";
            proof {
                reveal_strlit("-");
            }
            s.to_owned()
        },
        'U' | 'u' => {
            let s = "..-";
            proof {
                reveal_strlit("..-");
            }
            s.to_owned()
        },
        'V' | 'v' => {
            let s = "...-";
            proof {
                reveal_strlit("...-");
            }
            s.to_owned()
        },
        'W' | 'w' => {
            let s = ".--";
            proof {
                reveal_strlit(".--");
            }
            s.to_owned()
        },
        'X' | 'x' => {
            let s = "-..-";
            proof {
                reveal_strlit("-..-");
            }
            s.to_owned()
        },
        'Y' | 'y' => {
            let s = "-.--";
            proof {
                reveal_strlit("-.--");
            }
            s.to_owned()
        },
        'Z' | 'z' => {
            let s = "--..";
            proof {
                reveal_strlit("--..");
            }
            s.to_owned()
        },
        '0' => {
            let s = "-----";
            proof {
                reveal_strlit("-----");
            }
            s.to_owned()
        },
        '1' => {
            let s = ".----";
            proof {
                reveal_strlit(".----");
            }
            s.to_owned()
        },
        '2' => {
            let s = "..---";
            proof {
                reveal_strlit("..---");
            }
            s.to_owned()
        },
        '3' => {
            let s = "...--";
            proof {
                reveal_strlit("...--");
            }
            s.to_owned()
        },
        '4' => {
            let s = "....-";
            proof {
                reveal_strlit("....-");
            }
            s.to_owned()
        },
        '5' => {
            let s = ".....";
            proof {
                reveal_strlit(".....");
            }
            s.to_owned()
        },
        '6' => {
            let s = "-....";
            proof {
                reveal_strlit("-....");
            }
            s.to_owned()
        },
        '7' => {
            let s = "--...";
            proof {
                reveal_strlit("--...");
            }
            s.to_owned()
        },
        '8' => {
            let s = "---..";
            proof {
                reveal_strlit("---..");
            }
            s.to_owned()
        },
        '9' => {
            let s = "----.";
            proof {
                reveal_strlit("----.");
            }
            s.to_owned()
        },
        '.' => {
            let s = ".-.-.-";
            proof {
                reveal_strlit(".-.-.-");
            }
            s.to_owned()
        },
        '/' => {
            let s = "-..-.";
            proof {
                reveal_strlit("-..-.");
            }
            s.to_owned()
        },
        ',' => {
            let s = "--..--";
            proof {
                reveal_strlit("--..--");
            }
            s.to_owned()
        },
        '?' => {
            let s = "..--..";
            proof {
                reveal_strlit("..--..");
            }
            s.to_owned()
        },
        ' ' => {
            let s = " ";
            proof {
                reveal_strlit(" ");
            }
            s.to_owned()
        },
        '=' => {
            let s = "-...-";
            proof {
                reveal_strlit("-...-");
            }
            s.to_owned()
        },
        '|' => {
            let s = "...-.-";
            proof {
                reveal_strlit("...-.-");
            }
            s.to_owned()
        },
        '+' => {
            let s = ".-.-.";
            proof {
                reveal_strlit(".-.-.");
            }
            s.to_owned()
        },
        _ => {
            proof {
                assert(false);
            }
            String::new()
        },
    }
}

/// The duration of one element of a Morse pattern: a dot is a dit, a dash a dah.
pub open spec fn element_duration(element: char, dit: KeyerEdgeDurationMs, dah: KeyerEdgeDurationMs) -> KeyerEdgeDurationMs {
    if element == '.' {
        dit
    } else {
        dah
    }
}

/// The durations for the first `n` elements of a Morse pattern: each element, and a dit of
/// inter-element gap after every element but the last.
pub open spec fn pattern_durations(
    pattern: Seq<char>,
    n: nat,
    dit: KeyerEdgeDurationMs,
    dah: KeyerEdgeDurationMs,
) -> Seq<KeyerEdgeDurationMs>
    decreases n,
{
    if n == 0 {
        seq![]
    } else {
        pattern_durations(pattern, (n - 1) as nat, dit, dah) + seq![
            element_duration(pattern[n - 1], dit, dah),
        ] + (if n < pattern.len() {
            seq![dit]
        } else {
            seq![]
        })
    }
}

/// The durations that the character at index `i` of `text` adds: a word gap (seven dits) after
/// a space, else an inter-character gap (a dah) before any character but the first that is
/// not a space; then, for a character that is not a space, the durations of its Morse pattern.
pub open spec fn char_durations(text: Seq<char>, i: int, dit: KeyerEdgeDurationMs) -> Seq<KeyerEdgeDurationMs> {
    let ch = text[i];
    let gap = if i > 0 && text[i - 1] == ' ' {
        seq![(dit * 7) as KeyerEdgeDurationMs]
    } else if ch != ' ' && i != 0 {
        seq![(dit * 3) as KeyerEdgeDurationMs]
    } else {
        seq![]
    };
    let elements = if ch != ' ' {
        let pattern = morse_code(ch)->0;
        pattern_durations(pattern, pattern.len(), dit, (dit * 3) as KeyerEdgeDurationMs)
    } else {
        seq![]
    };
    gap + elements
}

/// The durations of the keying edges for the first `n` characters of `text`.
pub open spec fn text_durations(text: Seq<char>, n: nat, dit: KeyerEdgeDurationMs) -> Seq<KeyerEdgeDurationMs>
    decreases n,
{
    if n == 0 {
        seq![]
    } else {
        text_durations(text, (n - 1) as nat, dit) + char_durations(text, n - 1, dit)
    }
}

/// Timed keying events with the given durations; the edges alternate, the first being `up`.
pub open spec fn timed_events(durations: Seq<KeyerEdgeDurationMs>) -> Seq<KeyingEvent> {
    Seq::new(
        durations.len(),
        |k: int| KeyingEvent::Timed(KeyingTimedEvent { up: k % 2 == 0, duration: durations[k] }),
    )
}

/// The dit length, in milliseconds, at `wpm` words per minute (the speed taken as a `u16`).
pub open spec fn dit_ms(wpm: u32) -> KeyerEdgeDurationMs {
    1200u16 / (#[verifier::truncate] (wpm as u16))
}

/// Whether every character of `text` has a Morse code.
pub open spec fn all_convertible(text: Seq<char>) -> bool {
    forall|i: int| 0 <= i < text.len() ==> #[trigger] morse_code(text[i]) is Some
}

/// The keying for `text` at `wpm` words per minute: a start event, the timed edges, an end.
pub open spec fn keying_for_text(wpm: u32, text: Seq<char>) -> Seq<KeyingEvent> {
    seq![KeyingEvent::Start()] + timed_events(text_durations(text, text.len(), dit_ms(wpm)))
        + seq![KeyingEvent::End()]
}

proof fn lemma_timed_push(durations: Seq<KeyerEdgeDurationMs>, d: KeyerEdgeDurationMs)
    ensures
        timed_events(durations.push(d)) == timed_events(durations).push(
            KeyingEvent::Timed(KeyingTimedEvent { up: durations.len() % 2 == 0, duration: d }),
        ),
{
    assert(timed_events(durations.push(d)) =~= timed_events(durations).push(
        KeyingEvent::Timed(KeyingTimedEvent { up: durations.len() % 2 == 0, duration: d }),
    ));
}

/// Converts text to keying at `wpm` words per minute (prosigns are not supported).
pub fn text_to_keying(wpm: u32, text: &str) -> (keying: Vec<KeyingEvent>)
    requires
        (#[verifier::truncate] (wpm as u16)) != 0,
        all_convertible(text@),
    ensures
        keying@ == keying_for_text(wpm, text@),
{
    let dit: KeyerEdgeDurationMs = 1200 / (wpm as u16);
    let dah: KeyerEdgeDurationMs = dit * 3;
    let wordgap: KeyerEdgeDurationMs = dit * 7;
    let text_len = text.unicode_len();

    let mut out: Vec<KeyingEvent> = Vec::new();
    out.push(KeyingEvent::Start());

    let mut up = true;
    let mut previous_char = '~'; // never occurs in input
    let ghost mut durs: Seq<KeyerEdgeDurationMs> = seq![];
    let mut index: usize = 0;
    assert(out@ =~= seq![KeyingEvent::Start()] + timed_events(durs));
    while index < text_len
        invariant
            text_len == text@.len(),
            index <= text_len,
            all_convertible(text@),
            dit == dit_ms(wpm),
            dit <= 1200,
            dah == dit * 3,
            wordgap == dit * 7,
            durs == text_durations(text@, index as nat, dit),
            out@ == seq![KeyingEvent::Start()] + timed_events(durs),
            up == (durs.len() % 2 == 0),
            index > 0 ==> previous_char == text@[index - 1],
            index == 0 ==> previous_char == '~',
        decreases text_len - index,
    {
        let ch = text.get_char(index);
        let ghost before = durs;
        if previous_char == ' ' {
            proof {
                lemma_timed_push(durs, wordgap);
                durs = durs.push(wordgap);
            }
            out.push(KeyingEvent::Timed(KeyingTimedEvent { up, duration: wordgap }));
            up = !up;
        } else {
            if ch != ' ' && index != 0 {
                proof {
                    lemma_timed_push(durs, dah);
                    durs = durs.push(dah);
                }
                out.push(KeyingEvent::Timed(KeyingTimedEvent { up, duration: dah }));
                up = !up;
            }
        }
        let ghost after_gap = durs;
        if ch != ' ' {
            assert(morse_code(text@[index as int]) is Some);
            let morse_string = char_to_morse(ch);
            let morse = morse_string.as_str();
            let morse_len = morse.unicode_len();
            let ghost pattern = morse@;
            let mut element_index: usize = 0;
            while element_index < morse_len
                invariant
                    morse_len == pattern.len(),
                    pattern == morse@,
                    element_index <= morse_len,
                    dah == dit * 3,
                    durs == after_gap + pattern_durations(pattern, element_index as nat, dit, dah),
                    out@ == seq![KeyingEvent::Start()] + timed_events(durs),
                    up == (durs.len() % 2 == 0),
                decreases morse_len - element_index,
            {
                let last_element = element_index == morse_len - 1;
                let element = morse.get_char(element_index);
                let duration = if element == '.' {
                    dit
                } else {
                    dah
                };
                proof {
                    lemma_timed_push(durs, duration);
                    durs = durs.push(duration);
                }
                out.push(KeyingEvent::Timed(KeyingTimedEvent { up, duration }));
                up = !up;
                if !last_element {
                    proof {
                        lemma_timed_push(durs, dit);
                        durs = durs.push(dit);
                    }
                    out.push(KeyingEvent::Timed(KeyingTimedEvent { up, duration: dit }));
                    up = !up;
                }
                assert(durs =~= after_gap + pattern_durations(
                    pattern,
                    (element_index + 1) as nat,
                    dit,
                    dah,
                ));
                element_index += 1;
            }
        }
        assert(durs =~= before + char_durations(text@, index as int, dit));
        assert(durs =~= text_durations(text@, (index + 1) as nat, dit));
        previous_char = ch;
        index += 1;
    }

    let ghost final_durs = durs;
    out.push(KeyingEvent::End());
    assert(out@ =~= keying_for_text(wpm, text@));
    out
}


/// Whether `text` is words separated by single spaces: not empty, with no space at either end
/// and no two spaces together.
pub open spec fn single_spaced(text: Seq<char>) -> bool {
    &&& text.len() > 0
    &&& text[0] != ' '
    &&& text.last() != ' '
    &&& forall|i: int, j: int|
        0 <= i && j == i + 1 && j < text.len() ==> !(#[trigger] text[i] == ' ' && #[trigger] text[j]
            == ' ')
}

/// The number of Morse elements (dots and dashes) in the first `n` characters of `text`.
pub open spec fn morse_elements(text: Seq<char>, n: nat) -> nat
    decreases n,
{
    if n == 0 {
        0
    } else {
        morse_elements(text, (n - 1) as nat) + (if text[n - 1] == ' ' {
            0
        } else {
            (morse_code(text[n - 1])->0).len()
        })
    }
}

/// The number of spaces in the first `n` characters of `text`.
pub open spec fn spaces(text: Seq<char>, n: nat) -> nat
    decreases n,
{
    if n == 0 {
        0
    } else {
        spaces(text, (n - 1) as nat) + (if text[n - 1] == ' ' {
            1nat
        } else {
            0nat
        })
    }
}

/// The number of durations in `durations` equal to `d`.
pub open spec fn count_duration(durations: Seq<KeyerEdgeDurationMs>, d: KeyerEdgeDurationMs) -> nat
    decreases durations.len(),
{
    if durations.len() == 0 {
        0
    } else {
        count_duration(durations.drop_last(), d) + (if durations.last() == d {
            1nat
        } else {
            0nat
        })
    }
}

/// The number of key-up edges among `events`.
pub open spec fn up_edges(events: Seq<KeyingEvent>) -> nat
    decreases events.len(),
{
    if events.len() == 0 {
        0
    } else {
        up_edges(events.drop_last()) + (if events.last() matches KeyingEvent::Timed(e) && e.up {
            1nat
        } else {
            0nat
        })
    }
}

/// The number of timed edges among `events` lasting `d`.
pub open spec fn edges_lasting(events: Seq<KeyingEvent>, d: KeyerEdgeDurationMs) -> nat
    decreases events.len(),
{
    if events.len() == 0 {
        0
    } else {
        edges_lasting(events.drop_last(), d) + (if events.last() matches KeyingEvent::Timed(e)
            && e.duration == d {
            1nat
        } else {
            0nat
        })
    }
}

proof fn lemma_count_concat(a: Seq<KeyerEdgeDurationMs>, b: Seq<KeyerEdgeDurationMs>, d: KeyerEdgeDurationMs)
    ensures
        count_duration(a + b, d) == count_duration(a, d) + count_duration(b, d),
    decreases b.len(),
{
    if b.len() > 0 {
        lemma_count_concat(a, b.drop_last(), d);
        assert((a + b).drop_last() =~= a + b.drop_last());
    } else {
        assert(a + b =~= a);
    }
}

proof fn lemma_count_absent(s: Seq<KeyerEdgeDurationMs>, d: KeyerEdgeDurationMs)
    requires
        forall|k: int| 0 <= k < s.len() ==> #[trigger] s[k] != d,
    ensures
        count_duration(s, d) == 0,
    decreases s.len(),
{
    if s.len() > 0 {
        lemma_count_absent(s.drop_last(), d);
    }
}

proof fn lemma_pattern_shape(
    pattern: Seq<char>,
    n: nat,
    dit: KeyerEdgeDurationMs,
    dah: KeyerEdgeDurationMs,
)
    requires
        n <= pattern.len(),
    ensures
        pattern_durations(pattern, n, dit, dah).len() == (if n == 0 {
            0int
        } else if n < pattern.len() {
            2 * n as int
        } else {
            2 * n - 1
        }),
        forall|k: int|
            0 <= k < pattern_durations(pattern, n, dit, dah).len() ==> {
                let d = #[trigger] pattern_durations(pattern, n, dit, dah)[k];
                d == dit || d == dah
            },
    decreases n,
{
    if n > 0 {
        lemma_pattern_shape(pattern, (n - 1) as nat, dit, dah);
        let prev = pattern_durations(pattern, (n - 1) as nat, dit, dah);
        let cur = pattern_durations(pattern, n, dit, dah);
        assert forall|k: int| 0 <= k < cur.len() implies (cur[k] == dit || cur[k] == dah) by {
            if k < prev.len() {
                assert(cur[k] == prev[k]);
            }
        }
    }
}

proof fn lemma_code_not_empty(ch: char)
    requires
        morse_code(ch) is Some,
        ch != ' ',
    ensures
        (morse_code(ch)->0).len() >= 1,
{
}

proof fn lemma_prefix_shape(text: Seq<char>, n: nat, dit: KeyerEdgeDurationMs)
    requires
        1 <= dit <= 1200,
        all_convertible(text),
        single_spaced(text),
        1 <= n <= text.len(),
    ensures
        text_durations(text, n, dit).len() + 1 == 2 * morse_elements(text, n),
        count_duration(text_durations(text, n, dit), (dit * 7) as KeyerEdgeDurationMs) + (if text[n
            - 1] == ' ' {
            1nat
        } else {
            0nat
        }) == spaces(text, n),
        forall|k: int|
            0 <= k < text_durations(text, n, dit).len() ==> {
                let d = #[trigger] text_durations(text, n, dit)[k];
                d == dit || d == dit * 3 || d == dit * 7
            },
    decreases n,
{
    let dah = (dit * 3) as KeyerEdgeDurationMs;
    let gap = (dit * 7) as KeyerEdgeDurationMs;
    let i = n - 1;
    let ch = text[i];
    let cd = char_durations(text, i, dit);
    assert(morse_code(text[i]) is Some);
    if ch != ' ' {
        lemma_code_not_empty(ch);
        let pattern = morse_code(ch)->0;
        lemma_pattern_shape(pattern, pattern.len(), dit, dah);
    }
    if n == 1 {
        assert(text_durations(text, 0, dit) =~= seq![]);
        assert(text_durations(text, 1, dit) =~= cd);
        let pattern = morse_code(ch)->0;
        assert(cd =~= pattern_durations(pattern, pattern.len(), dit, dah));
        lemma_count_absent(cd, gap);
        assert(spaces(text, 0) == 0);
        assert(morse_elements(text, 0) == 0);
    } else {
        lemma_prefix_shape(text, (n - 1) as nat, dit);
        let prev = text_durations(text, (n - 1) as nat, dit);
        let cur = text_durations(text, n, dit);
        assert(cur == prev + cd);
        lemma_count_concat(prev, cd, gap);
        if ch == ' ' {
            assert(text[i - 1] != ' ');
            assert(cd =~= seq![]);
            lemma_count_absent(cd, gap);
        } else {
            let pattern = morse_code(ch)->0;
            let elements = pattern_durations(pattern, pattern.len(), dit, dah);
            lemma_count_absent(elements, gap);
            if text[i - 1] == ' ' {
                assert(cd =~= seq![gap] + elements);
                lemma_count_concat(seq![gap], elements, gap);
                assert(count_duration(seq![gap], gap) == 1) by {
                    reveal_with_fuel(count_duration, 2);
                    assert(seq![gap].drop_last() =~= Seq::<KeyerEdgeDurationMs>::empty());
                }
            } else {
                assert(cd =~= seq![dah] + elements);
                lemma_count_concat(seq![dah], elements, gap);
                assert(count_duration(seq![dah], gap) == 0) by {
                    reveal_with_fuel(count_duration, 2);
                    assert(seq![dah].drop_last() =~= Seq::<KeyerEdgeDurationMs>::empty());
                    assert(dah != gap);
                }
            }
        }
        assert forall|k: int| 0 <= k < cur.len() implies {
            let d = #[trigger] cur[k];
            d == dit || d == dit * 3 || d == dit * 7
        } by {
            if k < prev.len() {
                assert(cur[k] == prev[k]);
            } else {
                assert(cur[k] == cd[k - prev.len()]);
                if ch != ' ' {
                    let pattern = morse_code(ch)->0;
                    let elements = pattern_durations(pattern, pattern.len(), dit, dah);
                    if k - prev.len() >= 1 {
                        assert(cd[k - prev.len()] == elements[k - prev.len() - 1]);
                    }
                }
            }
        }
    }
}

proof fn lemma_timed_counts(durations: Seq<KeyerEdgeDurationMs>, d: KeyerEdgeDurationMs)
    ensures
        up_edges(timed_events(durations)) == (durations.len() + 1) / 2,
        edges_lasting(timed_events(durations), d) == count_duration(durations, d),
    decreases durations.len(),
{
    if durations.len() > 0 {
        let rest = durations.drop_last();
        lemma_timed_counts(rest, d);
        assert(timed_events(durations).drop_last() =~= timed_events(rest));
    } else {
        assert(timed_events(durations) =~= Seq::<KeyingEvent>::empty());
    }
}

proof fn lemma_framed_counts(events: Seq<KeyingEvent>, d: KeyerEdgeDurationMs)
    ensures
        up_edges(seq![KeyingEvent::Start()] + events + seq![KeyingEvent::End()]) == up_edges(events),
        edges_lasting(seq![KeyingEvent::Start()] + events + seq![KeyingEvent::End()], d)
            == edges_lasting(events, d),
{
    let framed = seq![KeyingEvent::Start()] + events + seq![KeyingEvent::End()];
    assert(framed.drop_last() =~= seq![KeyingEvent::Start()] + events);
    lemma_started_counts(events, d);
}

proof fn lemma_started_counts(events: Seq<KeyingEvent>, d: KeyerEdgeDurationMs)
    ensures
        up_edges(seq![KeyingEvent::Start()] + events) == up_edges(events),
        edges_lasting(seq![KeyingEvent::Start()] + events, d) == edges_lasting(events, d),
    decreases events.len(),
{
    if events.len() > 0 {
        lemma_started_counts(events.drop_last(), d);
        assert((seq![KeyingEvent::Start()] + events).drop_last() =~= seq![KeyingEvent::Start()]
            + events.drop_last());
        assert((seq![KeyingEvent::Start()] + events).last() == events.last());
    } else {
        reveal_with_fuel(up_edges, 2);
        reveal_with_fuel(edges_lasting, 2);
        assert(seq![KeyingEvent::Start()] + events =~= seq![KeyingEvent::Start()]);
        assert(seq![KeyingEvent::Start()].drop_last() =~= Seq::<KeyingEvent>::empty());
    }
}

/// The shape of the keying for words separated by single spaces at up to 1200 WPM: a start,
/// then edges that alternate starting with key-up, each lasting a dit, a dah (three dits) or
/// a word gap (seven dits), the last edge being key-up, then an end. There is one key-up edge
/// per dot or dash, and one word gap per space.
pub proof fn lemma_keying_structure(wpm: u32, text: Seq<char>)
    requires
        1 <= wpm <= 1200,
        all_convertible(text),
        single_spaced(text),
    ensures
        ({
            let r = keying_for_text(wpm, text);
            let dit = dit_ms(wpm);
            let n = r.len();
            &&& n >= 3
            &&& r[0] == KeyingEvent::Start()
            &&& r[n - 1] == KeyingEvent::End()
            &&& forall|i: int|
                0 < i < n - 1 ==> (#[trigger] r[i] matches KeyingEvent::Timed(e) && e.up == (i % 2
                    == 1) && (e.duration == dit || e.duration == dit * 3 || e.duration == dit * 7))
            &&& r[n - 2] matches KeyingEvent::Timed(e) && e.up
            &&& up_edges(r) == morse_elements(text, text.len())
            &&& edges_lasting(r, (dit * 7) as KeyerEdgeDurationMs) == spaces(text, text.len())
        }),
{
    let dit = dit_ms(wpm);
    assert(#[verifier::truncate] (wpm as u16) == wpm);
    assert(1 <= dit <= 1200) by (nonlinear_arith)
        requires
            dit == 1200u16 / (wpm as u16),
            1 <= wpm <= 1200,
    ;
    let durations = text_durations(text, text.len(), dit);
    lemma_prefix_shape(text, text.len(), dit);
    let timed = timed_events(durations);
    let r = keying_for_text(wpm, text);
    lemma_timed_counts(durations, (dit * 7) as KeyerEdgeDurationMs);
    lemma_framed_counts(timed, (dit * 7) as KeyerEdgeDurationMs);
    assert forall|i: int| 0 < i < r.len() - 1 implies (#[trigger] r[i] matches KeyingEvent::Timed(
        e,
    ) && e.up == (i % 2 == 1) && (e.duration == dit || e.duration == dit * 3 || e.duration == dit
        * 7)) by {
        assert(r[i] == timed[i - 1]);
        assert(durations[i - 1] == dit || durations[i - 1] == dit * 3 || durations[i - 1] == dit
            * 7);
    }
    assert(r[r.len() - 2] == timed[durations.len() - 1]);
}

} // verus!
