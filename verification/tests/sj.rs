use rust_learn::sj::base::{int_overflow, largest};
use rust_learn::sj::closure::{self, Cacher};
use rust_learn::sj::convert::{demo5, Point};
use rust_learn::sj::enums::List;
use rust_learn::sj::file_search::{search, Config};
use rust_learn::sj::iterator::{self, table_debug_text, vec_debug_text, Counter};
use rust_learn::sj::vecs::Person;

#[test]
fn overflow_four_ways() {
    assert_eq!(int_overflow(), (19, None, (19, true), 255));
}

#[test]
fn largest_items() {
    assert_eq!(largest(&[3, 9, 2, 9]), 9);
    assert_eq!(largest(&['q', 'z', 'a']), 'z');
    assert_eq!(largest(&[-1i64]), -1);
}

#[test]
fn cacher_keeps_first_result() {
    let mut c = Cacher::new(|v: u32| v * 2);
    assert_eq!(c.query(5), 10);
    assert_eq!(c.query(7), 10);
    assert_eq!(closure::demo(), 12);
    assert!(closure::demo3());
    assert_eq!(closure::run(), vec!["Cacher:1", "Cacher:1", "Cacher:1"]);
}

#[test]
fn point_text_and_parse() {
    let origin = Point { x: 0, y: 0 };
    assert_eq!(origin.to_string(), "The point is (0, 0)");
    assert_eq!(Point::from_str("(3, 4)").unwrap(), Point { x: 3, y: 4 });
    assert_eq!(Point { x: -12, y: 7 }.to_string(), "The point is (-12, 7)");
    assert!(Point::from_str("(a, 4)").is_err());
    assert!(Point::from_str("(1, b)").is_err());
    assert_eq!(Point::from_str("((5,-6,9))").unwrap(), Point { x: 5, y: -6 });
    assert_eq!(demo5(), 35);
}

#[test]
fn list_length_and_text() {
    let mut list = List::new();
    assert_eq!(list.len(), 0);
    assert_eq!(list.stringify(), "Nil");
    list = list.prepend(1);
    list = list.prepend(2);
    list = list.prepend(-3);
    assert_eq!(list.len(), 3);
    assert_eq!(list.stringify(), "-3, 2, 1, Nil");
}

#[test]
fn search_lines() {
    let contents = "Rust:\nsafe, fast, productive.\nPick three.\r\nDuct tape.";
    assert_eq!(search("duct", contents), vec!["safe, fast, productive."]);
    assert_eq!(search("e.", contents), vec!["safe, fast, productive.", "Pick three.", "Duct tape."]);
    assert!(search("zzz", contents).is_empty());
    assert_eq!(search("", "a\nb\n"), vec!["a", "b"]);
    assert_eq!(search("", "x\r"), vec!["x\r"]);
    assert_eq!(search("", "a\r\nb\r\n"), vec!["a", "b"]);
    assert_eq!(search("", "a\r\nb\r"), vec!["a", "b\r"]);
}

#[test]
fn config_from_arguments() {
    let args: Vec<String> = vec!["prog".into(), "needle".into(), "hay.txt".into()];
    let c = Config::build(&args).unwrap();
    assert_eq!(c.query, "needle");
    assert_eq!(c.file_path, "hay.txt");
    assert_eq!(Config::build(&args[..2]).unwrap_err(), "not enough arguments");
}

#[test]
fn counter_counts_to_five() {
    let mut c = Counter::new();
    for k in 1..=5 {
        assert_eq!(c.next(), Some(k));
    }
    assert_eq!(c.next(), None);
    assert_eq!(c.next(), None);
}

#[test]
fn iterator_lines() {
    let lines = iterator::run();
    assert_eq!(lines.len(), 13);
    assert_eq!(&lines[..11], &["1", "2", "1", "2", "[1, 2]", "[1, 2]", "1", "2", "[2, 3]", "[4, 6]", "[1, 2, 3]"]);
    assert_eq!(lines[11], "{\"Bob\": 18, \"Frank\": 19, \"Ferris\": 20}");
    assert_eq!(lines[12], "[2, 4]");
    assert_eq!(vec_debug_text(&vec![]), "[]");
    assert_eq!(vec_debug_text(&vec![-1, 10]), "[-1, 10]");
    assert_eq!(table_debug_text(&vec![]), "{}");
    assert_eq!(table_debug_text(&vec![("Ann", -3)]), "{\"Ann\": -3}");
}

#[test]
fn people_order_by_name_then_age() {
    let a = Person::new("a".to_string(), 15);
    let b = Person::new("b".to_string(), 1);
    let a2 = Person::new("a".to_string(), 16);
    assert!(a < b);
    assert!(a < a2);
    assert_eq!(a.age, 15);
}

#[test]
fn vector_walk_and_edits() {
    let lines = rust_learn::sj::vecs::demo();
    assert_eq!(lines.len(), 10);
    assert_eq!(&lines[..6], &["第三个元素是 3", "第三个元素是 3", "1", "2", "3", "4"]);
    let sizes: Vec<(&str, usize, usize)> = lines[6..]
        .iter()
        .map(|l| {
            let (label, rest) = l.split_once(" 长度是: ").unwrap();
            let (len, cap) = rest.split_once(", 容量是: ").unwrap();
            (label, len.parse().unwrap(), cap.parse().unwrap())
        })
        .collect();
    assert_eq!(sizes[0].0, "Vector");
    assert_eq!(sizes[1].0, "Vector（reserve）");
    assert_eq!(sizes[2].0, "Vector（shrink_to_fit）");
    assert_eq!(sizes[3].0, "Vector");
    assert_eq!(sizes.iter().map(|s| s.1).collect::<Vec<_>>(), vec![3, 3, 3, 0]);
    assert!(sizes[0].2 >= 10);
    assert!(sizes[1].2 >= 103);
    assert!(sizes.iter().all(|s| s.2 >= s.1));
}

