use rawspeed::array2d::{Array2DRefMut, Coord2D, RowIndex, RowLength, RowPitch};
use rawspeed::bitvacuumer::BitVacuumerMSB32;
use rawspeed::rawdemuxer::{RawDemuxer, RawDemuxerError};
use rawspeed::rawparser::{RawParser, RawParserError};

#[test]
fn array2d_rows_and_elements() {
    let mut data: Vec<u16> = (0..12).collect();
    let mut a = Array2DRefMut::new(&mut data, RowLength::new(3), RowPitch::new(4));
    assert_eq!(a.pitch(), 4);
    assert_eq!(a.row_length(), 3);
    assert_eq!(a.num_rows(), 3);
    assert_eq!(a.get_row(RowIndex::new(1)), Some(&[4u16, 5, 6][..]));
    assert_eq!(a.get_row(RowIndex::new(3)), None);
    assert_eq!(a.get_elt(Coord2D::new(2, 2)), Some(&10));
    assert_eq!(a.get_elt(Coord2D::new(2, 3)), None);
    assert_eq!(a.get_elt(Coord2D::new(3, 0)), None);
    assert_eq!(&a[RowIndex::new(2)], &[8u16, 9, 10][..]);
    assert_eq!(a[Coord2D::new(0, 1)], 1);
    if let Some(row) = a.get_row_mut(RowIndex::new(0)) {
        row[0] = 100;
    }
    assert!(a.get_row_mut(RowIndex::new(5)).is_none());
    if let Some(e) = a.get_elt_mut(Coord2D::new(1, 2)) {
        *e = 600;
    }
    assert!(a.get_elt_mut(Coord2D::new(1, 3)).is_none());
    assert_eq!(data, vec![100, 1, 2, 3, 4, 5, 600, 7, 8, 9, 10, 11]);
}

#[test]
fn demuxer_error_text() {
    let e = RawDemuxerError::DecoderError("bad header".to_owned());
    assert_eq!(e.to_string(), "RawDemuxerError(DecoderError(bad header))");
}

struct Flat;

impl RawDemuxer for Flat {
    fn decode(&self, output: &mut Array2DRefMut<'_, u16>) -> Result<(), RawDemuxerError> {
        match output.get_elt_mut(Coord2D::new(0, 0)) {
            Some(e) => {
                *e = 42;
                Ok(())
            }
            None => Err(RawDemuxerError::DecoderError("empty".to_owned())),
        }
    }
}

#[test]
fn parser_hands_out_the_demuxer() {
    let (d, req) = RawParser::get_decoder(Ok::<_, String>((Flat, 7u32))).unwrap();
    assert_eq!(req, 7);
    let mut data = vec![0u16; 4];
    let mut out = Array2DRefMut::new(&mut data, RowLength::new(2), RowPitch::new(2));
    assert_eq!(d.decode(&mut out), Ok(()));
    assert_eq!(data[0], 42);
    let err = RawParser::get_decoder::<Flat, u32>(Err("unsupported camera".to_owned()));
    assert_eq!(err.err(), Some(RawParserError::DecoderError("unsupported camera".to_owned())));
}

#[test]
fn vacuumer_packs_msb_first_into_le_words() {
    let mut v = BitVacuumerMSB32::new();
    v.put(0b1, 1);
    v.put(0, 0);
    v.put(0x7f, 7);
    assert_eq!(v.fill_level(), 8);
    assert!(v.output().is_empty());
    v.put(0xabcdef, 24);
    // The full word is written out before the next bits go in.
    v.put(0x3, 2);
    assert_eq!(v.fill_level(), 2);
    assert_eq!(v.output(), &vec![0xef, 0xcd, 0xab, 0xff]);
    let out = v.flush();
    // First word: 1111_1111 1010_1011 1100_1101 1110_1111, stored little-endian;
    // second word: 11 and thirty zero bits of padding.
    assert_eq!(out, vec![0xef, 0xcd, 0xab, 0xff, 0x00, 0x00, 0x00, 0xc0]);
}

#[test]
fn vacuumer_empty_flush_writes_nothing() {
    let v = BitVacuumerMSB32::new();
    assert!(v.flush().is_empty());
}

#[test]
fn vacuumer_whole_words() {
    let mut v = BitVacuumerMSB32::new();
    v.put(0x1234_5678, 32);
    v.put(0x9abc_def0, 32);
    assert_eq!(v.output(), &vec![0x78, 0x56, 0x34, 0x12]);
    assert_eq!(v.fill_level(), 32);
    v.put(1, 1);
    assert_eq!(v.output(), &vec![0x78, 0x56, 0x34, 0x12, 0xf0, 0xde, 0xbc, 0x9a]);
    assert_eq!(v.fill_level(), 1);
    let out = v.flush();
    assert_eq!(out, vec![0x78, 0x56, 0x34, 0x12, 0xf0, 0xde, 0xbc, 0x9a, 0, 0, 0, 0x80]);
}

#[test]
fn vacuumer_single_bit_padded() {
    let mut v = BitVacuumerMSB32::new();
    v.put(1, 1);
    assert_eq!(v.flush(), vec![0x00, 0x00, 0x00, 0x80]);
}
