use usb2snes::transfer::{split_chunks, Download, TransferError, CHUNK_SIZE};

fn data(n: usize) -> Vec<u8> {
    (0..n).map(|i| (i * 7 % 251) as u8).collect()
}

#[test]
fn chunk_counts() {
    for (n, count) in [(0, 0), (1, 1), (1023, 1), (1024, 1), (1025, 2), (4096, 4), (4097, 5)] {
        let d = data(n);
        let chunks = split_chunks(&d);
        assert_eq!(chunks.len(), count);
        assert!(chunks.iter().all(|c| !c.is_empty() && c.len() <= CHUNK_SIZE));
        assert_eq!(chunks.concat(), d);
    }
}

#[test]
fn last_chunk_is_the_remainder() {
    let d = data(2500);
    let chunks = split_chunks(&d);
    assert_eq!(chunks.iter().map(|c| c.len()).collect::<Vec<_>>(), vec![1024, 1024, 452]);
}

fn gather(len: usize, frames: &[Vec<u8>]) -> Vec<u8> {
    let mut d = Download::new(len);
    for f in frames {
        assert!(!d.is_complete());
        d.push_frame(f).unwrap();
    }
    assert!(d.is_complete());
    d.into_bytes()
}

#[test]
fn download_one_frame() {
    let d = data(300);
    assert_eq!(gather(300, &[d.clone()]), d);
}

#[test]
fn download_single_bytes() {
    let d = data(300);
    let frames: Vec<Vec<u8>> = d.iter().map(|b| vec![*b]).collect();
    assert_eq!(gather(300, &frames), d);
}

#[test]
fn download_uneven_split() {
    let d = data(300);
    let frames = vec![d[..7].to_vec(), d[7..200].to_vec(), d[200..201].to_vec(), d[201..].to_vec()];
    assert_eq!(gather(300, &frames), d);
}

#[test]
fn download_overrun_is_refused() {
    let mut d = Download::new(4);
    d.push_frame(&[1, 2, 3]).unwrap();
    assert_eq!(d.push_frame(&[4, 5]), Err(TransferError::Overrun));
    d.push_frame(&[4]).unwrap();
    assert!(d.is_complete());
    assert_eq!(d.into_bytes(), vec![1, 2, 3, 4]);
}

#[test]
fn download_of_nothing_is_complete() {
    let d = Download::new(0);
    assert!(d.is_complete());
    assert_eq!(d.expected_len(), 0);
}
