use xva::CheapRange;
use xva::LocationsDatabase;
use xva::SyntaxLocation;

#[test]
fn lines() {
    let mut loc_db = LocationsDatabase::new();
    loc_db.push(SyntaxLocation { line: 1, range: CheapRange::new(0, 16) });
    loc_db.push(SyntaxLocation { line: 2, range: CheapRange::new(17, 24) });
    loc_db.push(SyntaxLocation { line: 3, range: CheapRange::new(25, 32) });

    let mut line = loc_db.get_line_from_absolute_offset(&7).unwrap();
    assert_eq!(line, 1);

    line = loc_db.get_line_from_absolute_offset(&18).unwrap();
    assert_eq!(line, 2);

    line = loc_db.get_line_from_absolute_offset(&28).unwrap();
    assert_eq!(line, 3);
}

#[test]
fn offset_outside_every_line_has_no_line() {
    let mut loc_db = LocationsDatabase::new();
    loc_db.push_raw(0, CheapRange::new(0, 4));
    assert_eq!(loc_db.get_line_from_absolute_offset(&4), None);
    assert_eq!(loc_db.get_line_from_absolute_offset(&100), None);
    assert_eq!(loc_db.get_line_from_absolute_offset(&0), Some(0));
}
