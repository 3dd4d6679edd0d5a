use escrow::layout::RECORD_LEN;
use escrow::Escrow;
use pinocchio::program_error::ProgramError;

fn load_error(len: usize) -> Option<ProgramError> {
    let buf = vec![0xabu8; len];
    Escrow::load(&buf).err()
}

fn load_mut_error(len: usize) -> Option<ProgramError> {
    let mut buf = vec![0xabu8; len];
    Escrow::load_mut(&mut buf).err()
}

#[test]
fn record_length_is_113() {
    assert_eq!(Escrow::LEN, 113);
    assert_eq!(Escrow::expected_size(), 113);
    assert_eq!(RECORD_LEN, 113);
}

#[test]
fn load_rejects_empty_buffer() {
    assert_eq!(load_error(0), Some(ProgramError::InvalidAccountData));
}

#[test]
fn load_rejects_one_byte_short() {
    assert_eq!(load_error(112), Some(ProgramError::InvalidAccountData));
}

#[test]
fn load_rejects_one_byte_long() {
    assert_eq!(load_error(114), Some(ProgramError::InvalidAccountData));
}

#[test]
fn load_rejects_large_buffer() {
    assert_eq!(load_error(1 << 20), Some(ProgramError::InvalidAccountData));
}

#[test]
fn load_rejects_every_other_length_up_to_300() {
    for len in 0..300usize {
        if len != 113 {
            assert_eq!(load_error(len), Some(ProgramError::InvalidAccountData), "length {}", len);
            assert_eq!(load_mut_error(len), Some(ProgramError::InvalidAccountData), "length {}", len);
        }
    }
}

#[test]
fn load_mut_rejects_empty_buffer() {
    assert_eq!(load_mut_error(0), Some(ProgramError::InvalidAccountData));
}

#[test]
fn load_mut_rejects_one_byte_short() {
    assert_eq!(load_mut_error(112), Some(ProgramError::InvalidAccountData));
}

#[test]
fn load_mut_rejects_one_byte_long() {
    assert_eq!(load_mut_error(114), Some(ProgramError::InvalidAccountData));
}

#[test]
fn load_mut_rejects_large_buffer() {
    assert_eq!(load_mut_error(1 << 20), Some(ProgramError::InvalidAccountData));
}

#[test]
fn load_mut_leaves_a_rejected_buffer_alone() {
    let mut buf = vec![0x5au8; 112];
    assert!(Escrow::load_mut(&mut buf).is_err());
    assert_eq!(buf, vec![0x5au8; 112]);
}

#[test]
fn load_accepts_exact_length_whatever_the_contents() {
    for fill in [0x00u8, 0x01, 0x7f, 0x80, 0xff] {
        let mut buf = vec![fill; 113];
        assert!(Escrow::load(&buf).is_ok());
        assert!(Escrow::load_mut(&mut buf).is_ok());
    }
    let mut mixed: Vec<u8> = (0..113u32).map(|i| (i * 37 % 251) as u8).collect();
    assert!(Escrow::load(&mixed).is_ok());
    assert!(Escrow::load_mut(&mut mixed).is_ok());
}

#[test]
fn load_borrows_the_callers_bytes() {
    let buf: Vec<u8> = (0..113u8).collect();
    let h = Escrow::load(&buf).unwrap();
    assert_eq!(h.as_bytes(), &buf[..]);
    assert_eq!(h.as_bytes().as_ptr(), buf.as_ptr());
}

#[test]
fn load_mut_borrows_the_callers_bytes() {
    let mut buf: Vec<u8> = (0..113u8).collect();
    let before = buf.clone();
    let at = buf.as_ptr();
    let h = Escrow::load_mut(&mut buf).unwrap();
    assert_eq!(h.data.as_ptr(), at);
    assert_eq!(&h.data[..], &before[..]);
}

#[test]
fn load_reads_a_known_buffer() {
    let mut buf = vec![0u8; 113];
    buf[0] = 0x2a;
    buf[1] = 0x01;
    for b in &mut buf[8..40] {
        *b = 0x11;
    }
    for b in &mut buf[40..72] {
        *b = 0x22;
    }
    for b in &mut buf[72..104] {
        *b = 0x33;
    }
    buf[104] = 0xe8;
    buf[105] = 0x03;
    buf[112] = 0xfe;
    let h = Escrow::load(&buf).unwrap();
    assert_eq!(h.seed(), 0x012a);
    assert_eq!(h.maker(), [0x11u8; 32]);
    assert_eq!(h.mint_a(), [0x22u8; 32]);
    assert_eq!(h.mint_b(), [0x33u8; 32]);
    assert_eq!(h.receive(), 1000);
    assert_eq!(h.bump(), [0xfeu8]);
}
