use weather_threads::scene::Container;
use weather_threads::scene::MyWindow;
use weather_threads::scene::Tile;

#[test]
fn a_new_tile_sits_at_the_origin() {
    let t = Tile::new();
    assert_eq!(t.x, 0);
    assert_eq!(t.y, 0);
    assert_eq!(t.width, 30);
    assert_eq!(t.height, 30);
}

#[test]
fn set_x_moves_only_the_column() {
    let mut t = Tile::new();
    t.set_x(120);
    assert_eq!(t.get_x(), 120);
    assert_eq!(t.get_y(), 0);
    assert_eq!(t.width, 30);
    assert_eq!(t.height, 30);
}

#[test]
fn tiles_can_be_laid_out_in_a_row() {
    let tile = Tile::new();
    let mut scene: Container<Tile> = Container::new(800, 200);
    for i in 0..10 {
        let mut a = tile.clone();
        a.set_x(i * (10 + a.width as i32));
        scene.push(a);
    }
    assert_eq!(scene.contents.len(), 10);
    assert_eq!(scene.contents[0].x, 0);
    assert_eq!(scene.contents[9].x, 9 * 40);
}

#[test]
fn a_new_container_is_empty() {
    let c: Container<Tile> = Container::new(640, 480);
    assert_eq!(c.width, 640);
    assert_eq!(c.height, 480);
    assert!(c.contents.is_empty());
}

#[test]
fn push_keeps_insertion_order() {
    let mut c: Container<i32> = Container::new(1, 1);
    c.push(5);
    c.push(7);
    assert_eq!(c.contents, vec![5, 7]);
}

#[test]
fn a_new_window_has_the_default_margin() {
    let w = MyWindow::new(200, 100);
    assert_eq!(w.width, 200);
    assert_eq!(w.height, 100);
    assert_eq!(w.margin, 10);
}
