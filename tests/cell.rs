use smart_pointers::cell::Cell;

#[test]
fn cell_test() {
    let mut x = Cell::new(5);
    assert_eq!(x.get(), 5);

    x.set(20);
    assert_eq!(x.get(), 20);
}

#[test]
fn cell_reads_back_each_write() {
    let mut c = Cell::new((1u8, 'a'));
    assert_eq!(c.get(), (1u8, 'a'));
    c.set((2u8, 'b'));
    assert_eq!(c.get(), (2u8, 'b'));
    c.set((3u8, 'c'));
    c.set((4u8, 'd'));
    assert_eq!(c.get(), (4u8, 'd'));
    assert_eq!(c.get(), (4u8, 'd'));
}
