use sketches::color::Color;
use sketches::rng::SketchRng;
use sketches::theme::Themes;

#[test]
fn store_parses_big_endian_records() {
    let mut data = Vec::new();
    for &c in [0x00112233u32, 0x00445566, 0x00778899, 0x00aabbcc, 0x00ddeeff].iter() {
        data.extend_from_slice(&c.to_be_bytes());
    }
    let store = Themes::from_bytes(data).unwrap();
    assert_eq!(store.len(), 1);
    let palette = store.get(0);
    assert_eq!(palette.len(), 5);
    assert_eq!(palette[0], Color::from_rgb(0x11, 0x22, 0x33));
    assert_eq!(palette[4], Color::from_rgb(0xdd, 0xee, 0xff));
}

#[test]
fn store_rejects_ragged_length() {
    assert!(Themes::from_bytes(vec![0u8; 19]).is_err());
    assert!(Themes::from_bytes(vec![0u8; 21]).is_err());
    assert!(Themes::from_bytes(vec![0u8; 40]).is_ok());
    assert!(Themes::from_bytes(Vec::new()).is_ok());
}

#[test]
fn pick_draws_within_the_table() {
    let store = Themes::from_bytes(vec![7u8; 60]).unwrap();
    assert_eq!(store.len(), 3);
    let mut rng = SketchRng::new(2);
    for _ in 0..32 {
        let (ix, palette) = store.pick(&mut rng);
        assert!(ix < 3);
        assert_eq!(palette.len(), 5);
    }
}

#[test]
fn pick_is_deterministic() {
    let store = Themes::from_bytes(vec![9u8; 200]).unwrap();
    let mut a = SketchRng::new(31);
    let mut b = SketchRng::new(31);
    assert_eq!(store.pick(&mut a).0, store.pick(&mut b).0);
}
