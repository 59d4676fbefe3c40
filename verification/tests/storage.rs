use table_range::index_storage::{
    deserialize, erase_summary, max_blob_len, put_opt_str, put_str, read_blob, read_summary,
    render_summary, replace_summary, serialize, write_blob, write_summary, ByteOrder, ColSummary,
    IndexSummary, PageFormat, SUMMARY_VERSION,
};

fn col(attnum: i16, min: Option<&str>, max: Option<&str>) -> ColSummary {
    ColSummary {
        attnum,
        overlap: false,
        sql_type: "bigint".into(),
        min: min.map(|s| s.to_string()),
        max: max.map(|s| s.to_string()),
        has_nulls: false,
        all_nulls: false,
    }
}

fn little() -> PageFormat {
    PageFormat { order: ByteOrder::Little, block_size: 8192 }
}

fn big() -> PageFormat {
    PageFormat { order: ByteOrder::Big, block_size: 8192 }
}

/// A page's contents after `bytes` were written over its start.
fn page_with(bytes: &[u8]) -> Vec<u8> {
    let mut page = vec![0xAAu8; 8168];
    page[..bytes.len()].copy_from_slice(bytes);
    page
}

#[test]
fn summary_roundtrips() {
    let s = IndexSummary {
        cols: vec![
            ColSummary {
                attnum: 2,
                overlap: false,
                sql_type: "bigint".into(),
                min: Some("0".into()),
                max: Some("99".into()),
                has_nulls: true,
                all_nulls: false,
            },
            ColSummary {
                attnum: 3,
                overlap: true,
                sql_type: "int8range".into(),
                min: Some("[0,100)".into()),
                max: None,
                has_nulls: false,
                all_nulls: false,
            },
        ],
    };
    assert_eq!(deserialize(&serialize(&s)), Some(s));
}

#[test]
fn rejects_garbage_and_wrong_version() {
    assert_eq!(deserialize(&[]), None);
    assert_eq!(deserialize(&[99, 0, 0]), None);
}

#[test]
fn stored_form_is_exact() {
    let mut c = col(-2, Some("é"), None);
    c.overlap = true;
    c.has_nulls = true;
    c.all_nulls = true;
    let blob = serialize(&IndexSummary { cols: vec![c] });
    let expected: Vec<u8> = vec![
        1, 1, 0, 0xFE, 0xFF, 1, 3, 6, 0, b'b', b'i', b'g', b'i', b'n', b't', 1, 2, 0, 0xC3, 0xA9,
        0,
    ];
    assert_eq!(blob, expected);
    assert_eq!(SUMMARY_VERSION, 1);
}

#[test]
fn default_summary_is_empty() {
    let s = IndexSummary::default();
    assert!(s.cols.is_empty());
    assert_eq!(serialize(&s), vec![1, 0, 0]);
    assert_eq!(deserialize(&[1, 0, 0]), Some(s));
}

#[test]
fn text_fields_carry_their_length() {
    let mut out: Vec<u8> = vec![7];
    put_str(&mut out, "ab");
    put_opt_str(&mut out, &None);
    put_opt_str(&mut out, &Some("c".to_string()));
    assert_eq!(out, vec![7, 2, 0, b'a', b'b', 0, 1, 1, 0, b'c']);
}

#[test]
fn reading_stops_at_the_end_of_the_buffer() {
    let blob = serialize(&IndexSummary { cols: vec![col(1, Some("10"), Some("20"))] });
    for n in 0..blob.len() {
        assert_eq!(deserialize(&blob[..n]), None, "prefix of {n} bytes");
    }
    let mut longer = blob.clone();
    longer.push(255);
    assert_eq!(deserialize(&longer), deserialize(&blob));
}

#[test]
fn texts_must_be_utf8() {
    // One column whose type name is the single byte 0xFF.
    let bad: Vec<u8> = vec![1, 1, 0, 1, 0, 0, 0, 1, 0, 0xFF, 0, 0];
    assert_eq!(deserialize(&bad), None);
    let good: Vec<u8> = vec![1, 1, 0, 1, 0, 0, 0, 2, 0, 0xC3, 0xA9, 0, 0];
    let read = deserialize(&good).unwrap();
    assert_eq!(read.cols[0].sql_type, "é");
}

#[test]
fn any_presence_byte_but_zero_means_a_text() {
    let blob: Vec<u8> = vec![1, 1, 0, 1, 0, 9, 2, 0, 0, 7, 1, 0, b'x', 0];
    let read = deserialize(&blob).unwrap();
    assert!(read.cols[0].overlap);
    assert!(!read.cols[0].has_nulls);
    assert!(read.cols[0].all_nulls);
    assert_eq!(read.cols[0].min, Some("x".to_string()));
    assert_eq!(read.cols[0].max, None);
}

#[test]
fn long_texts_do_not_roundtrip() {
    // A length of 65536 keeps only its low sixteen bits, so the text reads as an empty one.
    let s = IndexSummary { cols: vec![col(1, Some(&"x".repeat(65536)), None)] };
    assert_ne!(deserialize(&serialize(&s)), Some(s));
    let s = IndexSummary { cols: vec![col(1, Some(&"x".repeat(65535)), None)] };
    assert_eq!(deserialize(&serialize(&s)), Some(s));
}

#[test]
fn blobs_are_framed_by_their_length() {
    assert_eq!(write_blob(little(), &[9, 8]), Ok(vec![2, 0, 0, 0, 9, 8]));
    assert_eq!(write_blob(big(), &[9, 8]), Ok(vec![0, 0, 0, 2, 9, 8]));
    assert_eq!(write_blob(little(), &[0; 300]).unwrap()[..4], [44, 1, 0, 0]);
}

#[test]
fn blobs_roundtrip_through_a_page() {
    for format in [little(), big()] {
        for n in [1usize, 13, 255, 256, 8128] {
            let data: Vec<u8> = (0..n).map(|i| (i % 251) as u8).collect();
            let page = page_with(&write_blob(format, &data).unwrap());
            assert_eq!(read_blob(format, Some(&page)), Some(data));
        }
    }
}

#[test]
fn a_blob_must_fit_its_page() {
    assert_eq!(max_blob_len(little()), 8128);
    assert!(write_blob(little(), &[0; 8128]).is_ok());
    assert_eq!(
        write_blob(little(), &[0; 8129]),
        Err("table_range: summary blob exceeds one page")
    );
}

#[test]
fn pages_without_a_blob_read_as_none() {
    assert_eq!(read_blob(little(), None), None);
    // An empty blob is no blob.
    let page = page_with(&write_blob(little(), &[]).unwrap());
    assert_eq!(read_blob(little(), Some(&page)), None);
    // Neither is a length past the capacity.
    let page = page_with(&[0xC1, 0x1F, 0, 0]);
    assert_eq!(read_blob(little(), Some(&page)), None);
    let page = page_with(&[0xC0, 0x1F, 0, 0]);
    assert_eq!(read_blob(little(), Some(&page)).unwrap().len(), 8128);
}

#[test]
fn summaries_roundtrip_through_a_page() {
    let s = IndexSummary { cols: vec![col(1, Some("0"), Some("99")), col(7, None, None)] };
    for format in [little(), big()] {
        let page = page_with(&write_summary(format, &s).unwrap());
        assert_eq!(read_summary(format, Some(&page)), Some(s.clone()));
    }
    assert_eq!(read_summary(little(), None), None);
    let garbage = page_with(&write_blob(little(), b"hello-page-42").unwrap());
    assert_eq!(read_summary(little(), Some(&garbage)), None);
}

#[test]
fn a_summary_too_large_for_its_page_is_refused() {
    let s = IndexSummary { cols: vec![col(1, Some(&"x".repeat(9000)), None)] };
    assert_eq!(
        write_summary(little(), &s),
        Err("table_range: summary blob exceeds one page")
    );
}

#[test]
fn summaries_have_a_readable_form() {
    assert_eq!(render_summary(&None, &vec![]), "none");
    assert_eq!(render_summary(&Some(IndexSummary::default()), &vec![]), "");
    let mut second = col(-3, None, None);
    second.overlap = true;
    second.has_nulls = true;
    let s = IndexSummary { cols: vec![col(12, Some("0"), Some("9")), second] };
    let bounds: Vec<(String, String)> = s
        .cols
        .iter()
        .map(|c| (format!("{:?}", c.min), format!("{:?}", c.max)))
        .collect();
    assert_eq!(
        render_summary(&Some(s), &bounds),
        "attnum=12 overlap=false min=Some(\"0\") max=Some(\"9\") has_nulls=false all_nulls=false; \
         attnum=-3 overlap=true min=None max=None has_nulls=true all_nulls=false"
    );
}

#[test]
fn a_blob_cut_short_reads_as_nothing() {
    let summary = IndexSummary {
        cols: vec![
            ColSummary {
                attnum: 2,
                overlap: false,
                sql_type: "bigint".into(),
                min: Some("0".into()),
                max: Some("99".into()),
                has_nulls: true,
                all_nulls: false,
            },
            ColSummary {
                attnum: 3,
                overlap: true,
                sql_type: "int8range".into(),
                min: Some("[0,100)".into()),
                max: None,
                has_nulls: false,
                all_nulls: false,
            },
        ],
    };
    let bytes = serialize(&summary);
    for n in 0..bytes.len() {
        assert_eq!(deserialize(&bytes[..n]), None, "{n} bytes");
    }
    assert_eq!(deserialize(&bytes), Some(summary));
}

#[test]
fn an_erased_page_holds_no_summary() {
    for order in [ByteOrder::Little, ByteOrder::Big] {
        let format = PageFormat { order, block_size: 8192 };
        let summary = IndexSummary { cols: vec![] };
        let mut page = vec![7u8; 8168];
        let bytes = replace_summary(format, &summary);
        assert_eq!(bytes, write_summary(format, &summary).unwrap());
        page[..bytes.len()].copy_from_slice(&bytes);
        assert_eq!(read_summary(format, Some(&page)), Some(summary));
        let bytes = erase_summary(format);
        page[..bytes.len()].copy_from_slice(&bytes);
        assert_eq!(read_summary(format, Some(&page)), None);
    }
}
