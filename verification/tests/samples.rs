use kord::error::KordError;
use kord::interval::Interval;
use kord::named_pitch::NamedPitch;
use kord::note::Note;
use kord::octave::Octave;
use kord::sample::{get_random_item, make_group, random_group, sort_notes};

fn c4() -> Note {
    Note::new(NamedPitch::C, Octave::Four)
}

fn ids(notes: &[Note]) -> Vec<u8> {
    notes.iter().map(|n| n.id()).collect()
}

#[test]
fn a_random_item_is_one_of_the_items() {
    let items = [3u8, 5, 8];
    let mut seen = [false; 3];
    for _ in 0..400 {
        let item = get_random_item(&items);
        let place = items.iter().position(|i| *i == item).unwrap();
        seen[place] = true;
    }
    assert_eq!(seen, [true; 3]);
    assert_eq!(get_random_item(&[7u8]), 7);
}

#[test]
fn groups_have_the_asked_notes_in_order() {
    let group = |count| {
        make_group(c4(), count, Interval::MajorThird, Interval::PerfectFifth, Interval::MajorNinth)
            .unwrap()
    };
    assert_eq!(ids(&group(1)), vec![51]);
    assert_eq!(ids(&group(2)), vec![51, 55]);
    assert_eq!(ids(&group(3)), vec![51, 55, 58]);
    assert_eq!(ids(&group(4)), vec![51, 55, 58, 65]);
    assert_eq!(ids(&group(0)), vec![51]);
    assert_eq!(ids(&group(9)), vec![51, 55, 58, 65]);
    let crossed =
        make_group(c4(), 4, Interval::PerfectFourth, Interval::AugmentedFourth, Interval::PerfectUnison)
            .unwrap();
    assert_eq!(ids(&crossed), vec![51, 51, 56, 57]);
}

#[test]
fn groups_that_leave_the_range_fail() {
    let high = Note::new(NamedPitch::B, Octave::Nine);
    assert!(make_group(high, 1, Interval::MinorSecond, Interval::PerfectFifth, Interval::MajorNinth).is_ok());
    assert_eq!(
        make_group(high, 2, Interval::MinorSecond, Interval::PerfectFifth, Interval::MajorNinth),
        Err(KordError::InvalidOctaveRange)
    );
}

#[test]
fn sorting_keeps_notes_and_orders_them() {
    let notes = vec![
        Note::new(NamedPitch::G, Octave::Four),
        Note::new(NamedPitch::DFlat, Octave::Four),
        Note::new(NamedPitch::C, Octave::Five),
        Note::new(NamedPitch::CSharp, Octave::Four),
        Note::new(NamedPitch::A, Octave::Three),
    ];
    let sorted = sort_notes(&notes);
    assert_eq!(ids(&sorted), vec![48, 52, 52, 58, 63]);
    assert_eq!(sorted[1].named_pitch, NamedPitch::DFlat);
    assert_eq!(sorted[2].named_pitch, NamedPitch::CSharp);
    assert!(sort_notes(&vec![]).is_empty());
}

#[test]
fn random_groups_are_drawn_from_the_lists() {
    let lower = [1u8, 2, 3, 4, 5];
    let middle = [6u8, 7, 8, 9];
    let upper = [10u8, 11, 13, 14, 15, 16, 17, 18, 20, 21, 22];
    for _ in 0..300 {
        for count in 1..=4u8 {
            let notes = random_group(c4(), count).unwrap();
            assert_eq!(notes.len(), count as usize);
            assert!(notes.windows(2).all(|w| w[0].id() <= w[1].id()));
            let above: Vec<u8> = notes.iter().map(|n| n.id() - 51).collect();
            assert_eq!(above[0], 0);
            if count >= 2 {
                assert!(lower.contains(&above[1]));
            }
            if count >= 3 {
                assert!(middle.contains(&above[2]));
            }
            if count >= 4 {
                assert!(upper.contains(&above[3]));
            }
        }
    }
}
