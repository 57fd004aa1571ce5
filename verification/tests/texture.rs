use bundle_assets::structs::{DataHeader, DataReaders};
use bundle_assets::types::texture::extract_texture;
use bundle_assets::ExtractError;

fn counted(n: usize, start: u8) -> Vec<u8> {
    (0..n).map(|i| start.wrapping_add(i as u8)).collect()
}

fn header(data_offset: u64) -> DataHeader {
    let mut d = DataHeader::default();
    d.data_offset = data_offset;
    d
}

#[test]
fn texture_is_header_slice_then_stream_payload() {
    let bundle = counted(0x10 + 0xc0 + 0x94, 0);
    let stream = counted(64, 100);
    let gpu = counted(64, 200);
    let mut readers = DataReaders::new(bundle.clone());
    readers.set_stream(stream.clone());
    readers.set_gpu(gpu);
    let mut d = header(0x10);
    d.stream_data_offset = 4;
    d.stream_data_size = 16;
    d.gpu_data_offset = 8;
    d.gpu_data_size = 32;
    let (bytes, name) = extract_texture(&d, &readers).unwrap();
    assert_eq!(name, None);
    assert_eq!(bytes.len(), 0x94 + 16);
    assert_eq!(&bytes[..0x94], &bundle[0x10 + 0xc0..0x10 + 0xc0 + 0x94]);
    assert_eq!(&bytes[0x94..], &stream[4..20]);
}

#[test]
fn texture_without_stream_payload_takes_the_gpu_payload() {
    let bundle = counted(0xc0 + 0x94, 0);
    let gpu = counted(64, 200);
    let mut readers = DataReaders::new(bundle.clone());
    readers.set_stream(counted(64, 100));
    readers.set_gpu(gpu.clone());
    let mut d = header(0);
    d.gpu_data_offset = 8;
    d.gpu_data_size = 32;
    let (bytes, _) = extract_texture(&d, &readers).unwrap();
    assert_eq!(bytes.len(), 0x94 + 32);
    assert_eq!(&bytes[0x94..], &gpu[8..40]);
}

#[test]
fn texture_is_the_same_on_every_run() {
    let mut readers = DataReaders::new(counted(0x200, 3));
    readers.set_stream(counted(64, 100));
    let mut d = header(0x20);
    d.stream_data_size = 10;
    let first = extract_texture(&d, &readers).unwrap();
    let second = extract_texture(&d, &readers).unwrap();
    assert_eq!(first, second);
}

#[test]
fn texture_that_needs_a_missing_stream_sidecar_fails() {
    let mut readers = DataReaders::new(counted(0x200, 0));
    readers.set_gpu(counted(64, 0));
    let mut d = header(0);
    d.stream_data_size = 10;
    d.gpu_data_size = 10;
    assert_eq!(extract_texture(&d, &readers).err(), Some(ExtractError::MissingPayload));
}

#[test]
fn texture_that_needs_a_missing_gpu_sidecar_fails() {
    let mut readers = DataReaders::new(counted(0x200, 0));
    readers.set_stream(counted(64, 0));
    let mut d = header(0);
    d.gpu_data_size = 10;
    assert_eq!(extract_texture(&d, &readers).err(), Some(ExtractError::MissingPayload));
}

#[test]
fn texture_payload_beyond_the_sidecar_fails() {
    let mut readers = DataReaders::new(counted(0x200, 0));
    readers.set_stream(counted(64, 0));
    let mut d = header(0);
    d.stream_data_offset = 60;
    d.stream_data_size = 5;
    assert_eq!(extract_texture(&d, &readers).err(), Some(ExtractError::MissingPayload));
    d.stream_data_size = 4;
    assert_eq!(extract_texture(&d, &readers).unwrap().0.len(), 0x94 + 4);
}

#[test]
fn texture_header_beyond_the_bundle_is_malformed() {
    let mut readers = DataReaders::new(counted(0xc0 + 0x93, 0));
    readers.set_stream(counted(64, 0));
    let mut d = header(0);
    d.stream_data_size = 4;
    assert_eq!(extract_texture(&d, &readers).err(), Some(ExtractError::Format));
    d.data_offset = u64::MAX;
    assert_eq!(extract_texture(&d, &readers).err(), Some(ExtractError::Format));
}
