use pathtracer::scene::Hittables;

#[test]
fn new_scene_holds_one_object() {
    let s = Hittables::new("ground");
    assert_eq!(s.len(), 1);
    assert_eq!(s.objects(), &vec!["ground"]);
}

#[test]
fn add_appends_in_order() {
    let mut s = Hittables::new(1);
    s.add(2);
    s.add(3);
    assert_eq!(s.len(), 3);
    assert_eq!(s.objects(), &vec![1, 2, 3]);
}

#[test]
fn clear_removes_everything() {
    let mut s = Hittables::new(1);
    s.add(2);
    s.clear();
    assert_eq!(s.len(), 0);
    assert!(s.objects().is_empty());
    s.add(9);
    assert_eq!(s.objects(), &vec![9]);
}
