use nl80211::attr::Nl80211Iftype;
use nl80211::util::{decode_iftypes, wrap_in_box};

#[test]
fn decodes_the_third_byte_of_each_record() {
    let bytes = vec![4, 0, 2, 0, 4, 0, 6, 0, 4, 0, 3, 0];
    assert_eq!(
        decode_iftypes(bytes),
        vec![Nl80211Iftype::IftypeStation, Nl80211Iftype::IftypeMonitor, Nl80211Iftype::IftypeAp]
    );
}

#[test]
fn drops_unknown_interface_types() {
    let bytes = vec![4, 0, 5, 0, 4, 0, 13, 0, 4, 0, 255, 0, 4, 0, 12, 0, 4, 0, 0, 0];
    assert_eq!(
        decode_iftypes(bytes),
        vec![Nl80211Iftype::IftypeNan, Nl80211Iftype::IftypeUnspecified]
    );
}

#[test]
fn yields_at_most_one_entry_for_every_four_bytes() {
    for n in 0..20usize {
        for extra in 0..4usize {
            let bytes = vec![2u8; 4 * n + extra];
            let decoded = decode_iftypes(bytes);
            assert_eq!(decoded.len(), n);
            assert!(decoded.iter().all(|t| *t == Nl80211Iftype::IftypeStation));
        }
        assert!(decode_iftypes(vec![99u8; 4 * n]).is_empty());
    }
}

#[test]
fn truncated_input_is_read_up_to_the_last_whole_record() {
    assert_eq!(decode_iftypes(vec![]), vec![]);
    assert_eq!(decode_iftypes(vec![4, 0, 2]), vec![]);
    assert_eq!(decode_iftypes(vec![4, 0, 2, 0, 4, 0, 6]), vec![Nl80211Iftype::IftypeStation]);
}

#[test]
fn draws_a_box() {
    assert_eq!(wrap_in_box("ab\nc"), "┏━━━━┓\n┃ ab ┃\n┃ c  ┃\n┗━━━━┛");
    assert_eq!(wrap_in_box(""), "┏━━┓\n┃  ┃\n┗━━┛");
    assert_eq!(wrap_in_box("x\n"), "┏━━━┓\n┃ x ┃\n┃   ┃\n┗━━━┛");
}

#[test]
fn measures_lines_in_characters() {
    assert_eq!(wrap_in_box("äö\nabc"), "┏━━━━━┓\n┃ äö  ┃\n┃ abc ┃\n┗━━━━━┛");
}

#[test]
fn every_line_of_a_box_is_equally_long() {
    for text in ["", "a", "ab\nc", "x\n", "one\n\nthree and more\n2", "äö\nabc"] {
        let drawn = wrap_in_box(text);
        let widest = text.split('\n').map(|line| line.chars().count()).max().unwrap();
        let lines: Vec<&str> = drawn.split('\n').collect();
        assert_eq!(lines.len(), text.split('\n').count() + 2);
        assert!(lines.iter().all(|line| line.chars().count() == widest + 4));
        assert_eq!(drawn.chars().next(), Some('┏'));
        assert_eq!(drawn.chars().last(), Some('┛'));
        for (line, row) in text.split('\n').zip(&lines[1..]) {
            assert!(row.starts_with(&format!("┃ {line}")));
            assert!(row.ends_with(" ┃"));
        }
    }
}
