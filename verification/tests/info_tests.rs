use parsekit::{ParseInfo, ParseResult};

#[test]
fn sequencing_adds_taken_and_keeps_the_further_read() {
    let a = ParseInfo::new(2, 5);
    let b = ParseInfo::new(1, 2);
    assert_eq!(a + b, ParseInfo::new(3, 5));
    let c = ParseInfo::new(2, 2);
    let d = ParseInfo::new(1, 4);
    assert_eq!(c + d, ParseInfo::new(3, 6));
}

#[test]
fn sequencing_is_not_commutative() {
    let a = ParseInfo::new(0, 3);
    let b = ParseInfo::new(2, 2);
    assert_eq!(a + b, ParseInfo::new(2, 3));
    assert_eq!(b + a, ParseInfo::new(2, 5));
    assert_ne!(a + b, b + a);
}

#[test]
fn sequencing_is_associative() {
    let a = ParseInfo::new(1, 4);
    let b = ParseInfo::new(2, 2);
    let c = ParseInfo::new(3, 9);
    assert_eq!((a + b) + c, a + (b + c));
    assert_eq!((a + b) + c, ParseInfo::new(6, 12));
}

#[test]
fn the_default_record_is_neutral() {
    let a = ParseInfo::new(3, 7);
    assert_eq!(ParseInfo::default(), ParseInfo::new(0, 0));
    assert_eq!(ParseInfo::default() + a, a);
    assert_eq!(a + ParseInfo::default(), a);
}

#[test]
fn sequencing_stops_at_the_largest_count() {
    let a = ParseInfo::new(usize::MAX, usize::MAX);
    let b = ParseInfo::new(1, 1);
    assert_eq!(a + b, ParseInfo::new(usize::MAX, usize::MAX));
    let c = ParseInfo::new(usize::MAX - 1, usize::MAX - 1);
    assert_eq!(c + b, ParseInfo::new(usize::MAX, usize::MAX));
}

#[test]
fn add_assign_appends() {
    let mut a = ParseInfo::new(2, 2);
    a += ParseInfo::new(1, 3);
    assert_eq!(a, ParseInfo::new(3, 5));
}

#[test]
fn record_appends_and_rewind_forgets_what_was_taken() {
    let mut a = ParseInfo::new(2, 2);
    a.record(ParseInfo::new(4, 6));
    assert_eq!(a, ParseInfo::new(6, 8));
    a.rewind();
    assert_eq!(a, ParseInfo::new(0, 8));
}

#[test]
fn outcomes_carry_their_record() {
    let ok: ParseResult<u8, u8> = ParseInfo::new(1, 2).ok(7);
    assert_eq!(ok.res, Ok(7));
    assert_eq!(ok.info, ParseInfo::new(1, 2));
    let err: ParseResult<u8, u8> = ParseInfo::new(0, 3).err(9);
    assert_eq!(err.res, Err(9));
    assert_eq!(err.info, ParseInfo::new(0, 3));
    let with: ParseResult<u8, u8> = ParseInfo::new(4, 4).with(Err(1));
    assert_eq!(with.res, Err(1));
    assert_eq!(with.info, ParseInfo::new(4, 4));
}

#[test]
fn record_to_appends_the_record_and_gives_the_result() {
    let mut info = ParseInfo::new(2, 3);
    let out: ParseResult<u8, u8> = ParseInfo::new(1, 5).ok(7);
    assert_eq!(out.record_to(&mut info), Ok(7));
    assert_eq!(info, ParseInfo::new(3, 7));
}
