use url_shortener::ident::{draw_id_length, generate_id, id_of_length, MAX_ID_LEN, MIN_ID_LEN};

fn is_safe(c: char) -> bool {
    c.is_ascii_digit() || c.is_ascii_lowercase() || c.is_ascii_uppercase() || c == '_' || c == '-'
}

#[test]
fn id_length_bounds_are_one_and_eleven() {
    assert_eq!(MIN_ID_LEN, 1);
    assert_eq!(MAX_ID_LEN, 11);
}

#[test]
fn generated_ids_are_short_and_safe() {
    for _ in 0..5000 {
        let id = generate_id();
        let length = id.chars().count();
        assert!(1 <= length && length <= 11, "length {} of {:?}", length, id);
        assert!(id.chars().all(is_safe), "unsafe character in {:?}", id);
    }
}

#[test]
fn generated_ids_come_in_every_length() {
    let mut seen = vec![false; 12];
    for _ in 0..5000 {
        seen[generate_id().chars().count()] = true;
    }
    assert!(!seen[0]);
    for length in 1..=11 {
        assert!(seen[length], "no id of length {} in 5000 draws", length);
    }
}

#[test]
fn generated_ids_vary() {
    let first = generate_id();
    let mut differs = false;
    for _ in 0..200 {
        if generate_id() != first {
            differs = true;
        }
    }
    assert!(differs);
}

#[test]
fn id_of_length_has_the_length_asked_for() {
    for length in 1..=11 {
        for _ in 0..50 {
            let id = id_of_length(length);
            assert_eq!(id.chars().count(), length);
            assert!(id.chars().all(is_safe), "unsafe character in {:?}", id);
        }
    }
}

#[test]
fn drawn_lengths_are_the_eleven_from_one_up() {
    let mut seen = vec![false; 13];
    for _ in 0..5000 {
        let length = draw_id_length();
        assert!(1 <= length && length <= 11);
        seen[length] = true;
    }
    assert!(!seen[0] && !seen[12]);
    assert!(seen[1] && seen[11]);
    for length in 1..=11 {
        assert!(seen[length], "length {} was not drawn in 5000 draws", length);
    }
}
