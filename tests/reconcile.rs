use rover::reconcile::files_to_ingest;

fn v(xs: &[&str]) -> Vec<String> {
    xs.iter().map(|x| x.to_string()).collect()
}

#[test]
fn only_unknown_files_are_queued() {
    let walked = v(&["/r/a.jpg", "/r/b.jpg", "/r/c.jpg"]);
    let known = v(&["/r/b.jpg"]);
    assert_eq!(files_to_ingest(&walked, &known), v(&["/r/a.jpg", "/r/c.jpg"]));
}

#[test]
fn repeats_are_queued_once() {
    let walked = v(&["/r/a.jpg", "/r/s/b.jpg", "/r/a.jpg"]);
    assert_eq!(files_to_ingest(&walked, &vec![]), v(&["/r/a.jpg", "/r/s/b.jpg"]));
}

#[test]
fn second_scan_queues_nothing() {
    let walked = v(&["/r/a.jpg", "/r/b.jpg", "/r/a.jpg"]);
    let mut known = v(&["/r/x.jpg"]);
    let first = files_to_ingest(&walked, &known);
    assert_eq!(first.len(), 2);
    known.extend(first);
    assert!(files_to_ingest(&walked, &known).is_empty());
}

#[test]
fn empty_walk_queues_nothing() {
    assert!(files_to_ingest(&vec![], &v(&["/r/a.jpg"])).is_empty());
}
