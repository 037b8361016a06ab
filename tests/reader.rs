use npy_reader::cache::Cache;
use npy_reader::data::{Data, DecodeError};
use npy_reader::event::{
    kind_of, origin_of, side_of, BUY, DEPTH_CLEAR_EVENT, DEPTH_EVENT, DEPTH_SNAPSHOT_EVENT,
    EXCH_ASK_DEPTH_CLEAR_EVENT, EXCH_ASK_DEPTH_EVENT, EXCH_ASK_DEPTH_SNAPSHOT_EVENT,
    EXCH_BID_DEPTH_CLEAR_EVENT, EXCH_BID_DEPTH_EVENT, EXCH_BID_DEPTH_SNAPSHOT_EVENT,
    EXCH_BUY_TRADE_EVENT, EXCH_EVENT, EXCH_SELL_TRADE_EVENT, EXCH_TRADE_EVENT,
    LOCAL_ASK_DEPTH_CLEAR_EVENT, LOCAL_ASK_DEPTH_EVENT, LOCAL_ASK_DEPTH_SNAPSHOT_EVENT,
    LOCAL_BID_DEPTH_CLEAR_EVENT, LOCAL_BID_DEPTH_EVENT, LOCAL_BID_DEPTH_SNAPSHOT_EVENT,
    LOCAL_BUY_TRADE_EVENT, LOCAL_EVENT, LOCAL_SELL_TRADE_EVENT, LOCAL_TRADE_EVENT, SELL,
    TRADE_EVENT, UNTIL_END_OF_DATA, WAIT_ORDER_RESPONSE_ANY, WAIT_ORDER_RESPONSE_NONE,
};
use npy_reader::reader::{container_kind, ContainerKind, Error, Reader};
use std::io::Write;

type Rec = [u8; 16];

/// A flat container: 10 bytes of preamble, a textual header of `header` bytes,
/// then `n` records of 16 bytes, record `i` filled with the byte `i + 1`.
fn container(header: u16, n: usize) -> Vec<u8> {
    let mut b: Vec<u8> = vec![0x93, b'N', b'U', b'M', b'P', b'Y', 1, 0];
    b.extend_from_slice(&header.to_le_bytes());
    for _ in 0..header {
        b.push(b' ');
    }
    for i in 0..n {
        for _ in 0..16 {
            b.push((i + 1) as u8);
        }
    }
    b
}

fn archive(entry: &[u8]) -> Vec<u8> {
    archive_of(&[entry])
}

fn archive_of(entries: &[&[u8]]) -> Vec<u8> {
    let mut w = zip::ZipWriter::new(std::io::Cursor::new(Vec::new()));
    for (i, e) in entries.iter().enumerate() {
        w.start_file(format!("arr_{}.npy", i), zip::write::FileOptions::default()).unwrap();
        w.write_all(e).unwrap();
    }
    w.finish().unwrap().into_inner()
}

#[test]
fn composite_codes_decompose() {
    let table = [
        (LOCAL_BID_DEPTH_EVENT, LOCAL_EVENT, DEPTH_EVENT, BUY),
        (LOCAL_ASK_DEPTH_EVENT, LOCAL_EVENT, DEPTH_EVENT, SELL),
        (LOCAL_BID_DEPTH_CLEAR_EVENT, LOCAL_EVENT, DEPTH_CLEAR_EVENT, BUY),
        (LOCAL_ASK_DEPTH_CLEAR_EVENT, LOCAL_EVENT, DEPTH_CLEAR_EVENT, SELL),
        (LOCAL_BID_DEPTH_SNAPSHOT_EVENT, LOCAL_EVENT, DEPTH_SNAPSHOT_EVENT, BUY),
        (LOCAL_ASK_DEPTH_SNAPSHOT_EVENT, LOCAL_EVENT, DEPTH_SNAPSHOT_EVENT, SELL),
        (LOCAL_TRADE_EVENT, LOCAL_EVENT, TRADE_EVENT, 0),
        (LOCAL_BUY_TRADE_EVENT, LOCAL_EVENT, TRADE_EVENT, BUY),
        (LOCAL_SELL_TRADE_EVENT, LOCAL_EVENT, TRADE_EVENT, SELL),
        (EXCH_BID_DEPTH_EVENT, EXCH_EVENT, DEPTH_EVENT, BUY),
        (EXCH_ASK_DEPTH_EVENT, EXCH_EVENT, DEPTH_EVENT, SELL),
        (EXCH_BID_DEPTH_CLEAR_EVENT, EXCH_EVENT, DEPTH_CLEAR_EVENT, BUY),
        (EXCH_ASK_DEPTH_CLEAR_EVENT, EXCH_EVENT, DEPTH_CLEAR_EVENT, SELL),
        (EXCH_BID_DEPTH_SNAPSHOT_EVENT, EXCH_EVENT, DEPTH_SNAPSHOT_EVENT, BUY),
        (EXCH_ASK_DEPTH_SNAPSHOT_EVENT, EXCH_EVENT, DEPTH_SNAPSHOT_EVENT, SELL),
        (EXCH_TRADE_EVENT, EXCH_EVENT, TRADE_EVENT, 0),
        (EXCH_BUY_TRADE_EVENT, EXCH_EVENT, TRADE_EVENT, BUY),
        (EXCH_SELL_TRADE_EVENT, EXCH_EVENT, TRADE_EVENT, SELL),
    ];
    for (code, origin, kind, side) in table {
        assert_eq!(origin_of(code), origin);
        assert_eq!(kind_of(code), kind);
        assert_eq!(side_of(code), side);
    }
    for i in 0..table.len() {
        for j in 0..table.len() {
            if i != j {
                assert_ne!(table[i].0, table[j].0);
            }
        }
    }
}

#[test]
fn composite_code_values() {
    assert_eq!(LOCAL_BID_DEPTH_EVENT, 0x6000_0001);
    assert_eq!(EXCH_SELL_TRADE_EVENT, 0x9000_0002);
    assert_eq!(EXCH_TRADE_EVENT, 0x8000_0002);
    assert_eq!(WAIT_ORDER_RESPONSE_NONE, -1);
    assert_eq!(WAIT_ORDER_RESPONSE_ANY, -2);
    assert_eq!(UNTIL_END_OF_DATA, i64::MAX);
}

#[test]
fn fixture_three_records() {
    let bytes = container(8, 3);
    assert_eq!(bytes.len(), 18 + 3 * 16);
    let d: Data<Rec> = Data::from_container(bytes).ok().unwrap();
    assert_eq!(d.len(), 3);
    for i in 0..3usize {
        assert_eq!(d.index(i), &[(i + 1) as u8; 16][..]);
        assert_eq!(d.get(i), Some(&[(i + 1) as u8; 16][..]));
    }
    assert_eq!(d.get(3), None);
}

#[test]
fn length_floors_partial_record() {
    let mut bytes = container(6, 2);
    bytes.extend_from_slice(&[9u8; 7]);
    let d: Data<Rec> = Data::from_container(bytes).ok().unwrap();
    assert_eq!(d.len(), (16 + 2 * 16 + 7 - 16) / 16);
    assert_eq!(d.len(), 2);
    assert!(d.get(1).is_some());
    assert!(d.get(2).is_none());
}

#[test]
fn record_size_follows_type() {
    let d: Data<[u8; 8]> = Data::from_container(container(8, 3)).ok().unwrap();
    assert_eq!(d.len(), 6);
    assert_eq!(d.index(5), &[3u8; 8][..]);
}

#[test]
fn empty_view_has_no_records() {
    let d: Data<Rec> = Data::empty();
    assert_eq!(d.len(), 0);
    assert!(d.get(0).is_none());
}

#[test]
fn malformed_headers_are_rejected() {
    let r: Result<Data<Rec>, DecodeError> = Data::from_container(vec![0u8; 9]);
    assert!(matches!(r, Err(DecodeError::MalformedHeader)));
    let mut b = container(8, 0);
    b[8] = 9;
    let r: Result<Data<Rec>, DecodeError> = Data::from_container(b);
    assert!(matches!(r, Err(DecodeError::MalformedHeader)));
    let r: Result<Data<Rec>, DecodeError> = Data::from_container(container(8, 0));
    assert_eq!(r.ok().unwrap().len(), 0);
}

#[test]
fn header_length_is_little_endian() {
    let d: Data<Rec> = Data::from_container(container(0x0102, 1)).ok().unwrap();
    assert_eq!(d.len(), 1);
    assert_eq!(d.index(0), &[1u8; 16][..]);
}

#[test]
fn archive_first_entry_is_decoded() {
    let entry = container(8, 3);
    let zipped = archive(&entry);
    assert_ne!(zipped, entry);
    let d: Data<Rec> = Data::from_archive(&zipped).ok().unwrap();
    assert_eq!(d.len(), 3);
    assert_eq!(d.index(2), &[3u8; 16][..]);
}

#[test]
fn broken_archive_is_an_archive_error() {
    let r: Result<Data<Rec>, DecodeError> = Data::from_archive(&container(8, 3));
    assert!(matches!(r, Err(DecodeError::Archive(_))));
    let r: Result<Data<Rec>, DecodeError> = Data::from_archive(&archive(&[1, 2, 3]));
    assert!(matches!(r, Err(DecodeError::MalformedHeader)));
}

#[test]
fn insert_get_remove_counts() {
    let mut c: Cache<Rec> = Cache::new();
    c.insert("a.npy".to_string(), Data::from_container(container(8, 3)).ok().unwrap());
    assert!(c.contains("a.npy"));
    assert_eq!(c.ref_count("a.npy"), 0);
    let v = c.get("a.npy");
    assert_eq!(v.len(), 3);
    assert_eq!(c.ref_count("a.npy"), 1);
    c.remove(v);
    assert_eq!(c.ref_count("a.npy"), 0);
    assert!(!c.contains("a.npy"));
}

#[test]
fn removal_waits_for_last_view() {
    let mut c: Cache<Rec> = Cache::new();
    c.insert("a.npy".to_string(), Data::from_container(container(8, 1)).ok().unwrap());
    let v1 = c.get("a.npy");
    let v2 = c.get("a.npy");
    assert_eq!(c.ref_count("a.npy"), 2);
    c.remove(v1);
    assert!(c.contains("a.npy"));
    assert_eq!(c.ref_count("a.npy"), 1);
    c.remove(v2);
    assert!(!c.contains("a.npy"));
}

#[test]
fn insert_replaces_existing_entry() {
    let mut c: Cache<Rec> = Cache::new();
    c.insert("a.npy".to_string(), Data::from_container(container(8, 1)).ok().unwrap());
    let old = c.get("a.npy");
    c.insert("a.npy".to_string(), Data::from_container(container(8, 2)).ok().unwrap());
    assert_eq!(c.ref_count("a.npy"), 0);
    assert_eq!(c.get("a.npy").len(), 2);
    c.remove(old);
    assert_eq!(c.ref_count("a.npy"), 1);
}

#[test]
fn release_after_eviction_is_a_no_op() {
    let mut c: Cache<Rec> = Cache::new();
    c.insert("a.npy".to_string(), Data::from_container(container(8, 1)).ok().unwrap());
    c.insert("b.npy".to_string(), Data::from_container(container(8, 2)).ok().unwrap());
    let a = c.get("a.npy");
    let a_again = c.get("a.npy");
    let _b = c.get("b.npy");
    c.remove(a);
    c.remove(a_again);
    assert!(!c.contains("a.npy"));
    let stale = c.get("b.npy");
    assert_eq!(c.ref_count("b.npy"), 2);
    c.remove(stale);
    assert_eq!(c.ref_count("b.npy"), 1);
}

#[test]
fn stale_view_release_leaves_cache_unchanged() {
    let mut c: Cache<Rec> = Cache::new();
    c.insert("a.npy".to_string(), Data::from_container(container(8, 1)).ok().unwrap());
    c.insert("b.npy".to_string(), Data::from_container(container(8, 2)).ok().unwrap());
    let a = c.get("a.npy");
    let a_twin = c.get("a.npy");
    let _b = c.get("b.npy");
    let a_kept = a.clone();
    c.remove(a);
    c.remove(a_twin);
    c.remove(a_kept);
    c.remove(Data::<Rec>::empty());
    assert!(!c.contains("a.npy"));
    assert_eq!(c.ref_count("b.npy"), 1);
}

#[test]
fn reader_yields_each_source_then_end() {
    let mut c: Cache<Rec> = Cache::new();
    let mut r: Reader<Rec> = Reader::new();
    for i in 0..3 {
        r.add_file(format!("day{}.npy", i));
    }
    for i in 0..3usize {
        let p = r.pending_source(&c).unwrap();
        assert_eq!(p, format!("day{}.npy", i));
        let v = r.next(&mut c, Some(container(8, i + 1))).ok().unwrap();
        assert_eq!(v.len(), i + 1);
    }
    assert!(r.pending_source(&c).is_none());
    assert!(matches!(r.next(&mut c, None), Err(Error::EndOfData)));
    assert!(matches!(r.next(&mut c, None), Err(Error::EndOfData)));
}

#[test]
fn reader_reads_archives() {
    let mut c: Cache<Rec> = Cache::new();
    let mut r: Reader<Rec> = Reader::new();
    r.add_file("day.npz".to_string());
    let v = r.next(&mut c, Some(archive(&container(8, 2)))).ok().unwrap();
    assert_eq!(v.len(), 2);
    assert_eq!(c.ref_count("day.npz"), 1);
}

#[test]
fn shared_cache_decodes_once() {
    let mut c: Cache<Rec> = Cache::new();
    let mut r1: Reader<Rec> = Reader::new();
    let mut r2: Reader<Rec> = Reader::new();
    r1.add_file("day.npy".to_string());
    r2.add_file("day.npy".to_string());
    let v1 = r1.next(&mut c, Some(container(8, 3))).ok().unwrap();
    assert!(r2.pending_source(&c).is_none());
    let v2 = r2.next(&mut c, None).ok().unwrap();
    assert_eq!(c.ref_count("day.npy"), 2);
    assert_eq!(v1.index(1), v2.index(1));
    r1.release(&mut c, v1);
    assert_eq!(c.ref_count("day.npy"), 1);
    r2.release(&mut c, v2);
    assert!(!c.contains("day.npy"));
}

#[test]
fn reader_errors_leave_cursor() {
    let mut c: Cache<Rec> = Cache::new();
    let mut r: Reader<Rec> = Reader::new();
    r.add_file("day.csv".to_string());
    assert!(r.pending_source(&c).is_none());
    assert!(matches!(
        r.next(&mut c, None),
        Err(Error::DataError(DecodeError::UnsupportedType))
    ));
    let mut r: Reader<Rec> = Reader::new();
    r.add_file("day.npy".to_string());
    assert!(matches!(
        r.next(&mut c, None),
        Err(Error::DataError(DecodeError::MissingContents))
    ));
    assert!(matches!(
        r.next(&mut c, Some(vec![1, 2, 3])),
        Err(Error::DataError(DecodeError::MalformedHeader))
    ));
    assert!(!c.contains("day.npy"));
    assert!(r.next(&mut c, Some(container(8, 1))).is_ok());
    assert!(matches!(r.next(&mut c, None), Err(Error::EndOfData)));
}

#[test]
fn container_kind_by_suffix() {
    assert!(matches!(container_kind("a/b.npy"), Some(ContainerKind::Flat)));
    assert!(matches!(container_kind("b.npz"), Some(ContainerKind::Archive)));
    assert!(container_kind("b.npy.gz").is_none());
    assert!(container_kind("npy").is_none());
}

#[test]
fn fresh_cache_accepts_inserts() {
    let c: Cache<Rec> = Cache::new();
    assert!(c.has_fresh_id());
}

#[test]
fn current_source_follows_cursor() {
    let mut c: Cache<Rec> = Cache::new();
    let mut r: Reader<Rec> = Reader::new();
    assert!(r.current_source().is_none());
    r.add_file("a.npy".to_string());
    r.add_file("b.npy".to_string());
    assert_eq!(r.current_source().unwrap(), "a.npy");
    r.next(&mut c, Some(container(8, 1))).ok().unwrap();
    assert_eq!(r.current_source().unwrap(), "b.npy");
    r.next(&mut c, Some(container(8, 1))).ok().unwrap();
    assert!(r.current_source().is_none());
}

#[test]
fn only_first_archive_entry_counts() {
    let first = container(8, 2);
    let a1 = archive_of(&[&first, &container(8, 5)]);
    let a2 = archive_of(&[&first]);
    let d1: Data<Rec> = Data::from_archive(&a1).ok().unwrap();
    let d2: Data<Rec> = Data::from_archive(&a2).ok().unwrap();
    let flat: Data<Rec> = Data::from_container(first).ok().unwrap();
    assert_eq!(d1.len(), 2);
    assert_eq!(d2.len(), 2);
    assert_eq!(flat.len(), 2);
    for i in 0..2usize {
        assert_eq!(d1.index(i), flat.index(i));
        assert_eq!(d2.index(i), flat.index(i));
    }
}

#[test]
fn empty_archive_is_an_archive_error() {
    let r: Result<Data<Rec>, DecodeError> = Data::from_archive(&archive_of(&[]));
    assert!(matches!(r, Err(DecodeError::Archive(_))));
}

#[test]
fn clone_shares_records() {
    let d: Data<Rec> = Data::from_container(container(8, 3)).ok().unwrap();
    let e = d.clone();
    assert_eq!(e.len(), 3);
    assert_eq!(e.index(2).as_ptr(), d.index(2).as_ptr());
}
