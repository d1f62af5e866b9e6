use wallust::args::Sequences;
use wallust::terminal_seq::{part_codes, sequence_parts, to_seq, SeqCode};

fn pieces() -> Vec<Vec<String>> {
    sequence_parts()
        .into_iter()
        .map(|p| {
            part_codes(p)
                .into_iter()
                .map(|c| match c {
                    SeqCode::Color(i) => format!("[c{i}]"),
                    SeqCode::Special(i) => format!("[s{i}]"),
                })
                .collect()
        })
        .collect()
}

#[test]
fn parts_and_their_codes() {
    let parts = sequence_parts();
    assert_eq!(parts.len(), 19);
    assert_eq!(parts[0], Sequences::Color0);
    assert_eq!(parts[15], Sequences::Color15);
    assert_eq!(&parts[16..], &[Sequences::Background, Sequences::Foreground, Sequences::Cursor]);
    assert_eq!(part_codes(Sequences::Color7), vec![SeqCode::Color(7)]);
    assert_eq!(
        part_codes(Sequences::Background),
        vec![SeqCode::Special(11), SeqCode::Special(19), SeqCode::Color(232), SeqCode::Color(257), SeqCode::Special(708)]
    );
    assert_eq!(part_codes(Sequences::Foreground), vec![SeqCode::Special(10), SeqCode::Special(17), SeqCode::Color(256)]);
    assert_eq!(part_codes(Sequences::Cursor), vec![SeqCode::Special(12), SeqCode::Special(13)]);
}

#[test]
fn all_sequences_in_order() {
    let s = to_seq(&pieces(), None);
    let colors: String = (0..16).map(|i| format!("[c{i}]")).collect();
    let expected = format!("{colors}[s11][s19][c232][c257][s708][s10][s17][c256][s12][s13]");
    assert_eq!(s, expected);
}

#[test]
fn removed_parts_are_left_out() {
    let s = to_seq(&pieces(), Some(&[Sequences::Background, Sequences::Color3]));
    assert!(!s.contains("[c3]"));
    assert!(!s.contains("[s708]"));
    assert!(s.starts_with("[c0][c1][c2][c4]"));
    assert!(s.ends_with("[c15][s10][s17][c256][s12][s13]"));
    assert_eq!(to_seq(&pieces(), Some(&[])), to_seq(&pieces(), None));
}
