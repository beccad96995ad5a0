use ylong_http::h2::hpack::table::{DynamicTable, Header, StaticTable};

#[test]
fn ut_dynamic_table_with_max_size() {
    let table = DynamicTable::with_max_size(4096);
    assert_eq!(table.len(), 0);
    assert_eq!(table.curr_size(), 0);
    assert_eq!(table.max_size(), 4096);
}

#[test]
fn ut_dynamic_table_header_name() {
    let mut table = DynamicTable::with_max_size(52);
    assert!(table.header_name(0).is_none());
    assert!(table.header_name(0).is_none());
    table.update(Header::Authority, b"Authority".to_vec());
    match table.header_name(0) {
        Some(Header::Authority) => {}
        _ => panic!("DynamicTable::header_name() failed!"),
    }
}

#[test]
fn ut_dynamic_table_header() {
    let mut table = DynamicTable::with_max_size(52);
    assert!(table.header(0).is_none());
    assert!(table.header(0).is_none());
    table.update(Header::Authority, b"Authority".to_vec());
    match table.header(0) {
        Some((Header::Authority, x)) if x == b"Authority" => {}
        _ => panic!("DynamicTable::header() failed!"),
    }
}

#[test]
fn ut_dynamic_table_update() {
    let mut table = DynamicTable::with_max_size(52);
    table.update(Header::Authority, b"Authority".to_vec());
    assert_eq!(table.len(), 1);
    match table.header(0) {
        Some((Header::Authority, x)) if x == b"Authority" => {}
        _ => panic!("DynamicTable::header() failed!"),
    }
    table.update(Header::Method, b"Method".to_vec());
    assert_eq!(table.len(), 1);
    match table.header(0) {
        Some((Header::Method, x)) if x == b"Method" => {}
        _ => panic!("DynamicTable::header() failed!"),
    }
}

#[test]
fn ut_dynamic_table_update_size() {
    let mut table = DynamicTable::with_max_size(52);
    table.update(Header::Authority, b"Authority".to_vec());
    assert_eq!(table.len(), 1);
    match table.header(0) {
        Some((Header::Authority, x)) if x == b"Authority" => {}
        _ => panic!("DynamicTable::header() failed!"),
    }
    table.update_size(0);
    assert_eq!(table.len(), 0);
    assert!(table.header(0).is_none());
}

#[test]
fn ut_static_table() {
    for index in 1..65 {
        if index < 62 {
            assert!(StaticTable::header_name(index).is_some())
        } else {
            assert!(StaticTable::header_name(index).is_none())
        }
    }
    for index in 2..20 {
        if index < 17 && index != 15 {
            assert!(StaticTable::header(index).is_some())
        } else {
            assert!(StaticTable::header(index).is_none())
        }
    }
}
