use chrono::{DateTime, Local};
use smart_horizoker::clock::Moment;
use smart_horizoker::logs::{read_chunk, render_chunks, render_line, split_chunk, LogLine};

fn local(stamp: &str) -> String {
    DateTime::parse_from_rfc3339(stamp).unwrap().with_timezone(&Local).format("%H:%M:%S").to_string()
}

#[test]
fn chunks_split_at_the_first_space() {
    assert_eq!(
        split_chunk("stamp a message\n".as_bytes().to_vec()),
        Some(("stamp".to_string(), "a message\n".to_string()))
    );
    assert_eq!(split_chunk("привет мир".as_bytes().to_vec()), Some(("привет".to_string(), "мир".to_string())));
    assert_eq!(split_chunk("nospace".as_bytes().to_vec()), None);
    assert_eq!(split_chunk(vec![b'a', b' ', 0xff]), None);
    assert_eq!(split_chunk(vec![]), None);
}

#[test]
fn chunks_have_an_instant_and_a_message() {
    let line = read_chunk("2024-05-06T07:08:09.000000001Z  hi \n".as_bytes().to_vec()).unwrap();
    assert_eq!(Some(line.moment), Moment::new(1714979289, 1));
    assert_eq!(line.message, " hi \n");
    assert!(read_chunk("yesterday hi".as_bytes().to_vec()).is_none());
}

#[test]
fn lines_show_the_clock_and_the_trimmed_message() {
    let moment = Moment::parse("2024-05-06T07:08:09Z").unwrap();
    let line = LogLine { moment, message: " \thello world\r\n".to_string() };
    assert_eq!(render_line(&line, 0), "[07:08:09] hello world\n");
    assert_eq!(render_line(&line, 5400), "[08:38:09] hello world\n");
    let bare = LogLine { moment, message: "".to_string() };
    assert_eq!(render_line(&bare, 0), "[07:08:09] \n");
}

#[test]
fn logs_are_written_on_the_local_clock() {
    let a = "2024-05-06T07:08:09.123Z";
    let b = "2024-12-06T17:00:00+02:00";
    let chunks = vec![
        format!("{} first\n", a).into_bytes(),
        vec![0xff, 0xfe],
        "no stamp here".to_string().into_bytes(),
        format!("{} second\n", b).into_bytes(),
    ];
    assert_eq!(render_chunks(chunks), format!("[{}] first\n[{}] second\n", local(a), local(b)));
    assert_eq!(render_chunks(vec![]), "");
    assert_eq!(render_chunks(vec![vec![0xff]]), "");
}

#[test]
fn logs_of_two_lists_follow_each_other() {
    let a = || "2024-05-06T07:08:09Z one".to_string().into_bytes();
    let b = || "2024-05-06T07:08:10Z two".to_string().into_bytes();
    let together = render_chunks(vec![a(), b()]);
    assert_eq!(together, render_chunks(vec![a()]) + render_chunks(vec![b()]).as_str());
    assert!(together.ends_with('\n'));
}
