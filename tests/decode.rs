use yas_scan::decode::{best_symbol, collapse_steps, decode_text, recognize_scores};

fn vocab() -> Vec<char> {
    vec!['-', 'a', 'b', 'c']
}

#[test]
fn decode_collapses_repeats_and_blanks() {
    let steps = vec![1, 1, 0, 2, 2, 2, 0, 3];
    assert_eq!(collapse_steps(&steps, 0), vec![1, 2, 3]);
    assert_eq!(decode_text(&steps, 0, &vocab()), "abc");
}

#[test]
fn decode_all_blank_is_empty() {
    assert_eq!(decode_text(&vec![0, 0, 0, 0], 0, &vocab()), "");
    assert_eq!(decode_text(&vec![], 0, &vocab()), "");
}

#[test]
fn decode_blank_separates_equal_symbols() {
    assert_eq!(decode_text(&vec![1, 0, 1, 1], 0, &vocab()), "aa");
}

#[test]
fn best_symbol_takes_first_maximum() {
    assert_eq!(best_symbol(&vec![3, 9, 9, -1]), 1);
    assert_eq!(best_symbol(&vec![-5]), 0);
    assert_eq!(best_symbol(&vec![-5, -2, -7]), 1);
}

#[test]
fn recognize_from_scores() {
    let scores = vec![
        vec![0, 5, 1, 1],
        vec![0, 5, 1, 1],
        vec![9, 5, 1, 1],
        vec![0, 1, 1, 7],
    ];
    assert_eq!(recognize_scores(&scores, 0, &vocab()), "ac");
}
