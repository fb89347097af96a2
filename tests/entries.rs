use koi::entry::{Entry, EntryState, EntryType};
use koi::store::{next_entry_id, Query};
use koi::time::{Date, DateTime, Time};

fn at(y: u32, m: u32, d: u32, h: u32, min: u32) -> DateTime {
    DateTime::new(Date::from_ymd(y, m, d).unwrap(), Time::from_hm(h, min).unwrap())
}

fn entry(id: u64, title: &str) -> Entry {
    Entry::test_entry(id, title.to_string(), at(2023, 5, 1, 8, 0))
}

#[test]
fn range_filter_selects_first_only() {
    let mut a = entry(1, "a");
    a.scheduled = Some(at(2023, 6, 1, 9, 0));
    let mut b = entry(2, "b");
    b.scheduled = Some(at(2023, 6, 15, 9, 0));
    let q = Query {
        state: None,
        prefix: None,
        scheduled_or_deadline: Some((at(2023, 6, 1, 0, 0), at(2023, 6, 10, 0, 0))),
    };
    let got = q.filter(vec![a.clone(), b]);
    assert_eq!(got, vec![a]);
}

#[test]
fn range_filter_uses_deadline_and_half_open_bounds() {
    let mut a = entry(1, "a");
    a.deadline = Some(at(2023, 6, 10, 0, 0));
    let mut b = entry(2, "b");
    b.deadline = Some(at(2023, 6, 1, 0, 0));
    let c = entry(3, "c");
    let q = Query {
        state: None,
        prefix: None,
        scheduled_or_deadline: Some((at(2023, 6, 1, 0, 0), at(2023, 6, 10, 0, 0))),
    };
    assert_eq!(q.filter(vec![a, b.clone(), c]), vec![b]);
}

#[test]
fn prefix_and_state_filters() {
    let mut a = entry(1, "a");
    a.prefix = "work/proj".to_string();
    let mut b = entry(2, "b");
    b.prefix = "home".to_string();
    b.closed = Some(at(2023, 5, 2, 8, 0));
    let q = Query { state: None, prefix: Some("work"), scheduled_or_deadline: None };
    assert!(q.matches(&a));
    assert!(!q.matches(&b));
    let q = Query { state: Some(EntryState::Open), prefix: None, scheduled_or_deadline: None };
    assert_eq!(q.filter(vec![a.clone(), b.clone()]), vec![b.clone()]);
    let q = Query { state: None, prefix: None, scheduled_or_deadline: None };
    assert_eq!(q.filter(vec![a.clone(), b.clone()]), vec![a, b]);
}

#[test]
fn entry_state() {
    let mut e = entry(7, "t");
    assert_eq!(e.id, 7);
    assert_eq!(e.title, "t");
    assert!(!e.is_open());
    assert!(e.is_closed());
    assert_eq!(e.state(), EntryState::Closed);
    e.closed = Some(at(2023, 5, 2, 8, 0));
    assert!(e.is_open());
    assert_eq!(e.state(), EntryState::Open);
}

#[test]
fn entry_type_text() {
    assert_eq!(EntryType::Todo.to_string(), "todo");
    assert_eq!(EntryType::Meeting.to_string(), "meeting");
    assert_eq!(" meeting ".parse::<EntryType>(), Ok(EntryType::Meeting));
    assert_eq!("todo".parse::<EntryType>(), Ok(EntryType::Todo));
    assert!("task".parse::<EntryType>().is_err());
}

#[test]
fn entry_ids() {
    assert_eq!(next_entry_id(None), 2);
    assert_eq!(next_entry_id(Some(3)), 4);
}
