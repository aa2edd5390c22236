use pcap_ingest::error::CaptureError;
use pcap_ingest::stream::{header_from_fields, DefaultPackage, PcapWorker, StreamRecordHeader};

#[test]
fn header_line_and_payload_make_one_buffer() {
    let mut w = PcapWorker::new(1);
    let h = w
        .read_header("{\"datalen\": 8, \"actlen\": 10, \"ts_sec\": 100, \"ts_usec\": 2}\n")
        .unwrap()
        .unwrap();
    assert_eq!(
        h,
        StreamRecordHeader { captured_length: 8, original_length: 10, ts_sec: 100, ts_usec: 2 }
    );
    let payload = [1u8, 2, 3, 4, 5, 6, 7, 8];
    let buf = w.frame_buffer(&h, &payload).unwrap();
    assert_eq!(buf.len(), 28);
    let mut expected = Vec::new();
    for x in [1u32, 8, 10, 100, 2] {
        expected.extend_from_slice(&x.to_be_bytes());
    }
    assert_eq!(&buf[..20], &expected[..]);
    assert_eq!(&buf[20..], &payload[..]);
    assert!(!w.is_done());
}

#[test]
fn empty_line_ends_the_stream() {
    let mut w = PcapWorker::new(1);
    assert_eq!(w.read_header(""), Ok(None));
    assert!(w.is_done());
    let line = "{\"datalen\": 1, \"actlen\": 1, \"ts_sec\": 0, \"ts_usec\": 0}";
    assert_eq!(w.read_header(line), Ok(None));
}

#[test]
fn blank_line_ends_the_stream() {
    let mut w = PcapWorker::new(1);
    assert_eq!(w.read_header("  \r\n"), Ok(None));
    assert!(w.is_done());
}

#[test]
fn malformed_header_is_protocol_error() {
    let mut w = PcapWorker::new(1);
    assert_eq!(w.read_header("not json\n"), Err(CaptureError::ProtocolError));
    assert_eq!(
        w.read_header("{\"datalen\": 8, \"actlen\": 10, \"ts_sec\": 100}"),
        Err(CaptureError::ProtocolError)
    );
    assert_eq!(
        w.read_header("{\"datalen\": 4294967296, \"actlen\": 10, \"ts_sec\": 100, \"ts_usec\": 2}"),
        Err(CaptureError::ProtocolError)
    );
    assert_eq!(
        w.read_header("{\"datalen\": -1, \"actlen\": 10, \"ts_sec\": 100, \"ts_usec\": 2}"),
        Err(CaptureError::ProtocolError)
    );
    assert!(!w.is_done());
}

#[test]
fn header_fields_must_fit_in_32_bits() {
    assert_eq!(
        header_from_fields(Some(4294967295), Some(0), Some(1), Some(2)),
        Ok(StreamRecordHeader { captured_length: 4294967295, original_length: 0, ts_sec: 1, ts_usec: 2 })
    );
    assert_eq!(header_from_fields(Some(4294967296), Some(0), Some(1), Some(2)), Err(CaptureError::ProtocolError));
    assert_eq!(header_from_fields(Some(1), None, Some(1), Some(2)), Err(CaptureError::ProtocolError));
}

#[test]
fn short_payload_is_io_error() {
    let w = PcapWorker::new(9);
    let h = StreamRecordHeader { captured_length: 4, original_length: 4, ts_sec: 0, ts_usec: 0 };
    assert_eq!(w.frame_buffer(&h, &[1, 2, 3]), Err(CaptureError::Io));
}

#[test]
fn worker_stamps_its_link_type() {
    let pkg = DefaultPackage::new();
    assert_eq!(pkg.reader_id(), "app.genet.reader.pcap");
    let w = pkg.reader().new_worker(228);
    assert_eq!(w.link(), 228);
    assert_eq!(w.layer_id(), "[pcap]");
    let h = StreamRecordHeader { captured_length: 0, original_length: 0, ts_sec: 0, ts_usec: 0 };
    let buf = w.frame_buffer(&h, &[]).unwrap();
    assert_eq!(buf[..4], [0, 0, 0, 228]);
    assert_eq!(buf.len(), 20);
}
