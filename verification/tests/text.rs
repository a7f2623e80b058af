use custos::order::{add_distinct, text_before};
use custos::path::parent_of;
use custos::table::Table;
use custos::text::{
    byte_len, decimal_string, is_white_space, part, split_chars, split_once_at, to_lower, to_upper,
};

#[test]
fn white_space_is_what_std_takes_it_to_be() {
    for code in 0..=0x10ffff_u32 {
        if let Some(c) = char::from_u32(code) {
            assert_eq!(is_white_space(c), c.is_whitespace());
        }
    }
}

#[test]
fn case_is_changed_in_ascii_only() {
    for text in ["", "aZ09", "straße ÄÖü", "ΣΑΣ", "DRY run!"] {
        assert_eq!(to_lower(text), text.to_ascii_lowercase());
        assert_eq!(to_upper(text), text.to_ascii_uppercase());
    }
}

#[test]
fn numbers_are_written_in_decimal() {
    for number in [0, 7, 10, 99, 100, 4294967295, u64::MAX] {
        assert_eq!(decimal_string(number), number.to_string());
    }
}

#[test]
fn texts_are_cut_as_std_cuts_them() {
    for text in ["", ":", "a:b", "a::b:", "äb:c", "no separator"] {
        let chars: Vec<char> = text.chars().collect();
        let pieces: Vec<String> = split_chars(&chars, ':')
            .iter()
            .map(|piece| piece.iter().collect())
            .collect();
        let expected: Vec<&str> = text.split(':').collect();
        assert_eq!(pieces, expected);

        let once = split_once_at(text, ':');
        let expected = text
            .split_once(':')
            .map(|(before, after)| (before.to_string(), after.to_string()));
        assert_eq!(once, expected);
        assert_eq!(byte_len(text), text.len());
    }
    let chars: Vec<char> = "abcdef".chars().collect();
    assert_eq!(part(&chars, 2, 4), "cd");
}

#[test]
fn texts_are_ordered_as_std_orders_them() {
    let texts = ["", "a", "ab", "b", "1-10", "1-2", "ä", "é", "z", "\u{10348}", "\u{ffff}"];
    for a in texts {
        for b in texts {
            assert_eq!(text_before(a, b), a < b);
        }
    }
}

#[test]
fn distinct_lists_stay_in_order() {
    let mut list: Vec<String> = Vec::new();
    for text in ["b", "a", "c", "a", "b"] {
        add_distinct(&mut list, text.to_string());
    }
    assert_eq!(list, ["a", "b", "c"]);
}

#[test]
fn tables_hold_one_value_for_each_key() {
    let mut table: Table<String, u32> = Table::new();
    table.insert("a".to_string(), 1);
    table.insert("b".to_string(), 2);
    table.insert("a".to_string(), 3);
    assert_eq!(table.len(), 2);
    assert_eq!(table.get(&"a".to_string()), Some(&3));

    let copy = table.duplicate();
    table.remove(&"a".to_string());
    assert_eq!(table.get(&"a".to_string()), None);
    assert_eq!(copy.get(&"a".to_string()), Some(&3));

    table.insert("c".to_string(), 4);
    table.retain_keys(&vec!["c".to_string(), "d".to_string()]);
    assert_eq!(table.len(), 1);
    assert_eq!(table.get(&"c".to_string()), Some(&4));
}

#[test]
fn paths_are_in_the_directories_that_std_finds() {
    let mut paths: Vec<String> = vec![String::new()];
    let mut longest: Vec<String> = paths.clone();
    for _ in 0..8 {
        let mut longer: Vec<String> = Vec::new();
        for path in &longest {
            for c in ['/', '.', 'a'] {
                longer.push(format!("{path}{c}"));
            }
        }
        paths.extend(longer.iter().cloned());
        longest = longer;
    }
    paths.push("/run/custos/control.sock".to_string());
    paths.push("/run//größe/./s/".to_string());

    for path in &paths {
        let expected = std::path::Path::new(path)
            .parent()
            .map(|parent| parent.to_str().expect("the path is text").to_string());
        assert_eq!(parent_of(path), expected, "the directory of {path:?}");
    }
    assert_eq!(parent_of("/run/custos/control.sock"), Some("/run/custos".to_string()));
    assert_eq!(parent_of("/run//größe/./s/"), Some("/run//größe".to_string()));
    assert_eq!(parent_of("/s"), Some("/".to_string()));
    assert_eq!(parent_of("./s"), Some(".".to_string()));
    assert_eq!(parent_of("s"), Some(String::new()));
    assert_eq!(parent_of("."), Some(String::new()));
    assert_eq!(parent_of("/"), None);
    assert_eq!(parent_of(""), None);
}
