use fuse_storage::column_error::Error;
use fuse_storage::cursor::Cursor;
use fuse_storage::delta_bp::DeltaBitpacking;
use fuse_storage::native_meta::{
    deserialize_meta, footer_pre_read_range, read_footer, read_meta, read_schema_bytes,
    ColumnMeta, FooterRead, PageMeta,
};
use fuse_storage::native_reader::NativeReader;
use fuse_storage::rle::{is_valid, Rle};

fn footer(columns: &[(u64, Vec<(u64, u64)>)]) -> Vec<u8> {
    let mut bytes = Vec::new();
    bytes.extend_from_slice(&(columns.len() as u64).to_le_bytes());
    for (offset, pages) in columns {
        bytes.extend_from_slice(&offset.to_le_bytes());
        bytes.extend_from_slice(&(pages.len() as u64).to_le_bytes());
        for (length, num_values) in pages {
            bytes.extend_from_slice(&length.to_le_bytes());
            bytes.extend_from_slice(&num_values.to_le_bytes());
        }
    }
    bytes
}

fn metas() -> Vec<ColumnMeta> {
    vec![
        ColumnMeta {
            offset: 0,
            pages: vec![
                PageMeta {
                    length: 3,
                    num_values: 10,
                },
                PageMeta {
                    length: 0x0102_0304_0506_0708,
                    num_values: 2,
                },
            ],
        },
        ColumnMeta {
            offset: 77,
            pages: vec![],
        },
    ]
}

fn file() -> Vec<u8> {
    let schema = br#"{"fields":[]}"#;
    let meta = footer(&[(0, vec![(3, 10), (0x0102_0304_0506_0708, 2)]), (77, vec![])]);
    let mut bytes = b"page data".to_vec();
    bytes.extend_from_slice(schema);
    bytes.extend_from_slice(&meta);
    bytes.extend_from_slice(&(schema.len() as u32).to_le_bytes());
    bytes.extend_from_slice(&(meta.len() as u32).to_le_bytes());
    bytes.extend_from_slice(b"EOSEOSEO");
    bytes
}

#[test]
fn footer_is_read_back() {
    let bytes = footer(&[(0, vec![(3, 10), (0x0102_0304_0506_0708, 2)]), (77, vec![])]);
    assert_eq!(deserialize_meta(bytes.clone()).unwrap(), metas());
    let mut longer = bytes.clone();
    longer.extend_from_slice(b"trailing");
    assert_eq!(deserialize_meta(longer).unwrap(), metas());
    assert_eq!(deserialize_meta(footer(&[])).unwrap(), vec![]);
}

#[test]
fn footer_that_ends_early_is_refused() {
    let bytes = footer(&[(0, vec![(3, 10)])]);
    for cut in 0..bytes.len() {
        assert_eq!(
            deserialize_meta(bytes[..cut].to_vec()),
            Err(Error::Io("failed to fill whole buffer".to_string()))
        );
    }
    // a count of columns that the bytes cannot hold
    let mut huge = u64::MAX.to_le_bytes().to_vec();
    huge.extend_from_slice(&[0u8; 64]);
    assert!(deserialize_meta(huge).is_err());
    // a count of pages that the bytes cannot hold
    let mut huge = 1u64.to_le_bytes().to_vec();
    huge.extend_from_slice(&0u64.to_le_bytes());
    huge.extend_from_slice(&u64::MAX.to_le_bytes());
    assert!(deserialize_meta(huge).is_err());
}

#[test]
fn footer_is_found_at_the_end_of_a_file() {
    let bytes = file();
    assert_eq!(read_meta(&bytes).unwrap(), metas());
    assert_eq!(read_schema_bytes(&bytes).unwrap(), br#"{"fields":[]}"#);
    assert_eq!(
        read_footer(&bytes).unwrap(),
        FooterRead::Complete(metas(), br#"{"fields":[]}"#.to_vec())
    );
    let total = (bytes.len() - 9) as u64;
    assert_eq!(
        read_footer(&bytes[bytes.len() - 20..]).unwrap(),
        FooterRead::NeedBytes(total)
    );
    assert_eq!(
        read_footer(&bytes[bytes.len() - 15..]),
        Err(Error::OutOfSpec("file is too short".to_string()))
    );
    assert!(read_meta(&bytes[bytes.len() - 20..]).is_err());
    assert_eq!(footer_pre_read_range(100), (0, 100));
    assert_eq!(footer_pre_read_range(65536), (0, 65536));
    assert_eq!(footer_pre_read_range(70000), (4464, 70000));
}

fn pages() -> Vec<PageMeta> {
    vec![
        PageMeta {
            length: 2,
            num_values: 20,
        },
        PageMeta {
            length: 0,
            num_values: 0,
        },
        PageMeta {
            length: 3,
            num_values: 30,
        },
        PageMeta {
            length: 1,
            num_values: 10,
        },
    ]
}

#[test]
fn pages_are_read_one_after_the_other() {
    let mut reader = NativeReader::new(Cursor::new(b"aabbbc".to_vec()), pages(), vec![]);
    assert!(reader.has_next());
    assert_eq!(reader.current_page(), 0);
    assert_eq!(reader.size_hint(), (4, Some(4)));
    assert_eq!(reader.next(), Some(Ok((20, b"aa".to_vec()))));
    assert_eq!(reader.next(), Some(Ok((0, vec![]))));
    assert_eq!(reader.current_page(), 2);
    assert_eq!(reader.next(), Some(Ok((30, b"bbb".to_vec()))));
    assert_eq!(reader.next(), Some(Ok((10, b"c".to_vec()))));
    assert!(!reader.has_next());
    assert_eq!(reader.next(), None);
    assert_eq!(reader.size_hint(), (0, Some(0)));
}

#[test]
fn pages_are_skipped() {
    let mut reader = NativeReader::new(Cursor::new(b"aabbbc".to_vec()), pages(), vec![]);
    assert_eq!(reader.nth(2), Some(Ok((30, b"bbb".to_vec()))));
    assert_eq!(reader.current_page(), 3);
    assert_eq!(reader.nth(1), None);
    assert_eq!(reader.current_page(), 4);

    let mut reader = NativeReader::new(Cursor::new(b"aabbbc".to_vec()), pages(), vec![]);
    assert_eq!(reader.nth(0), Some(Ok((20, b"aa".to_vec()))));
    assert_eq!(reader.nth(7), None);
    assert_eq!(reader.current_page(), 4);

    let mut reader = NativeReader::new(Cursor::new(b"aabbbc".to_vec()), pages(), vec![]);
    assert!(reader.skip_page().is_ok());
    assert!(reader.skip_page().is_ok());
    assert_eq!(reader.next(), Some(Ok((30, b"bbb".to_vec()))));
    assert!(reader.skip_page().is_ok());
    assert!(reader.skip_page().is_ok());
    assert_eq!(reader.current_page(), 4);
}

#[test]
fn a_page_longer_than_the_bytes_fails() {
    let mut reader = NativeReader::new(Cursor::new(b"aab".to_vec()), pages(), vec![]);
    assert_eq!(reader.next(), Some(Ok((20, b"aa".to_vec()))));
    assert_eq!(reader.next(), Some(Ok((0, vec![]))));
    assert!(matches!(reader.next(), Some(Err(Error::Io(_)))));
    assert_eq!(reader.current_page(), 2);
}

#[test]
fn pages_beyond_the_bytes_are_skipped_all_the_same() {
    let mut reader = NativeReader::new(Cursor::new(b"aab".to_vec()), pages(), vec![]);
    assert_eq!(reader.nth(1), Some(Ok((0, vec![]))));
    assert_eq!(reader.current_page(), 2);
    // the page reaches beyond the bytes: it is skipped, and nothing is left
    assert_eq!(reader.skip_page(), Ok(()));
    assert_eq!(reader.current_page(), 3);
    assert!(matches!(reader.next(), Some(Err(Error::Io(_)))));
    assert_eq!(reader.current_page(), 3);
    assert_eq!(reader.skip_page(), Ok(()));
    assert_eq!(reader.skip_page(), Ok(()));
    assert_eq!(reader.current_page(), 4);

    let mut reader = NativeReader::new(Cursor::new(b"a".to_vec()), pages(), vec![]);
    // the first page is skipped though the bytes end within it; the second
    // is empty and so is read
    assert_eq!(reader.nth(1), Some(Ok((0, vec![]))));
    assert_eq!(reader.current_page(), 2);
    assert!(matches!(reader.next(), Some(Err(Error::Io(_)))));

    let mut reader = NativeReader::new(Cursor::new(b"a".to_vec()), pages(), vec![]);
    assert!(matches!(reader.nth(2), Some(Err(Error::Io(_)))));
    assert_eq!(reader.current_page(), 2);
    let mut reader = NativeReader::new(Cursor::new(b"a".to_vec()), pages(), vec![]);
    assert_eq!(reader.nth(4), None);
    assert_eq!(reader.current_page(), 4);
}

#[test]
fn scratch_buffer_is_swapped() {
    let mut reader = NativeReader::new(Cursor::new(vec![]), vec![], vec![1, 2]);
    let mut mine = vec![9];
    reader.swap_buffer(&mut mine);
    assert_eq!(mine, vec![1, 2]);
    reader.swap_buffer(&mut mine);
    assert_eq!(mine, vec![9]);
}

#[test]
fn runs_are_written_and_read_back() {
    let rle = Rle {};
    let values: Vec<u32> = vec![7, 7, 7, 1, 1, 9];
    let mut out = vec![0xAA];
    rle.compress_integer(&mut out, &values, None).unwrap();
    assert_eq!(
        out,
        vec![0xAA, 3, 0, 0, 0, 7, 0, 0, 0, 2, 0, 0, 0, 1, 0, 0, 0, 1, 0, 0, 0, 9, 0, 0, 0]
    );
    let mut back: Vec<u32> = vec![];
    let rest = rle.decompress_integer(&out[1..], 6, &mut back).unwrap();
    assert_eq!(back, values);
    assert!(rest.is_empty());

    let wide: Vec<i64> = vec![-2, -2, 0x0102_0304_0506_0708];
    let mut out = vec![];
    rle.compress_integer(&mut out, &wide, None).unwrap();
    assert_eq!(out.len(), 24);
    assert_eq!(&out[..12], &[2, 0, 0, 0, 0xfe, 0xff, 0xff, 0xff, 0xff, 0xff, 0xff, 0xff]);
    assert_eq!(&out[12..], &[1, 0, 0, 0, 8, 7, 6, 5, 4, 3, 2, 1]);
    let mut back: Vec<i64> = vec![5];
    out.push(0xEE);
    let rest = rle.decompress_integer(&out, 3, &mut back).unwrap();
    assert_eq!(back, vec![5, -2, -2, 0x0102_0304_0506_0708]);
    assert_eq!(rest, &[0xEE]);
}

#[test]
fn values_that_are_not_valid_join_the_run_around_them() {
    let rle = Rle {};
    let values: Vec<u8> = vec![0, 0, 5, 0, 5, 6, 0];
    let validity = Some(vec![false, false, true, false, true, true, false]);
    assert!(!is_valid(&validity, 0) && is_valid(&validity, 2) && !is_valid(&validity, 9));
    assert!(is_valid(&None, 9));
    let mut out = vec![];
    rle.compress_integer(&mut out, &values, validity).unwrap();
    assert_eq!(out, vec![5, 0, 0, 0, 5, 2, 0, 0, 0, 6]);

    let mut out = vec![];
    rle.compress_integer(&mut out, &vec![3u16, 4], Some(vec![false, false]))
        .unwrap();
    assert_eq!(out, vec![2, 0, 0, 0, 0, 0]);

    let mut out = vec![];
    rle.compress_integer(&mut out, &Vec::<u16>::new(), None).unwrap();
    assert!(out.is_empty());
}

#[test]
fn runs_that_end_early_are_refused() {
    let rle = Rle {};
    let mut back: Vec<u32> = vec![];
    assert!(matches!(
        rle.decompress_integer(&[], 0, &mut back),
        Err(Error::Io(_))
    ));
    assert!(matches!(
        rle.decompress_integer(&[2, 0, 0, 0, 7, 0, 0, 0, 1, 0], 3, &mut back),
        Err(Error::Io(_))
    ));
    assert_eq!(back, vec![7, 7]);
    // one run is read even where nothing is asked for
    let mut back: Vec<u32> = vec![];
    let rest = rle
        .decompress_integer(&[2, 0, 0, 0, 7, 0, 0, 0, 1], 0, &mut back)
        .unwrap();
    assert_eq!(back, vec![7, 7]);
    assert_eq!(rest, &[1]);
}

#[test]
fn sorted_blocks_are_packed_and_unpacked() {
    let packer = DeltaBitpacking {};
    let array: Vec<u32> = (0..256u32).map(|i| i * 3 + (i % 2)).collect();
    assert!(packer.can_compress(&array));
    assert!(!packer.can_compress(&array[..100].to_vec()));
    let mut descending = array.clone();
    descending.swap(10, 11);
    assert!(!packer.can_compress(&descending));

    let mut out = vec![0x55];
    let size = packer.compress(&array, &mut out).unwrap();
    assert_eq!(size, out.len() - 1);
    // the first block holds integers below 512, the second below 1024
    assert_eq!(out[1], 9);
    assert_eq!(out[1 + 1 + 9 * 16], 10);
    assert_eq!(size, 1 + 9 * 16 + 1 + 10 * 16);

    let mut back = vec![1u32];
    packer.decompress(&out[1..], 256, &mut back).unwrap();
    assert_eq!(back[0], 1);
    assert_eq!(&back[1..], &array[..]);

    let mut back = vec![];
    packer.decompress(&out[1..], 129, &mut back).unwrap();
    assert_eq!(back, array);
    let mut back = vec![];
    packer.decompress(&out[1..], 128, &mut back).unwrap();
    assert_eq!(back, &array[..128]);
    let mut back = vec![];
    packer.decompress(&out[1..], 0, &mut back).unwrap();
    assert!(back.is_empty());

    let mut back = vec![];
    assert!(packer.decompress(&out[1..out.len() - 1], 256, &mut back).is_err());
    assert_eq!(back, &array[..128]);
    assert!(packer.decompress(&[33], 1, &mut back).is_err());
    assert!(packer.decompress(&[], 1, &mut back).is_err());

    let mut out = vec![];
    assert_eq!(packer.compress(&vec![], &mut out).unwrap(), 0);
    assert!(out.is_empty());
    // an array that descends is packed too, in the bits of its greatest
    // integer
    let descending: Vec<u32> = (0..128).map(|i| if i % 2 == 0 { 5 } else { 3 }).collect();
    let mut out = vec![];
    assert_eq!(packer.compress(&descending, &mut out), Ok(1 + 16 * 3));
    assert_eq!(out[0], 3);
    assert_eq!(out.len(), 49);
}
