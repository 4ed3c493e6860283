use raytrace::bmp::header;
use raytrace::texture::{SkyboxBackground, Texture};

#[test]
fn header_of_small_image() {
    let hd = header(2, 3).expect("header");
    // 2 pixels take 6 bytes, padded to 8
    assert_eq!(hd.row_bytes, 8);
    let b = &hd.bytes;
    assert_eq!(b.len(), 122);
    assert_eq!(&b[0..2], b"BM");
    assert_eq!(u32::from_le_bytes([b[2], b[3], b[4], b[5]]), 122 + 24);
    assert_eq!(u32::from_le_bytes([b[10], b[11], b[12], b[13]]), 122);
    assert_eq!(u32::from_le_bytes([b[14], b[15], b[16], b[17]]), 108);
    assert_eq!(u32::from_le_bytes([b[18], b[19], b[20], b[21]]), 2);
    assert_eq!(u32::from_le_bytes([b[22], b[23], b[24], b[25]]), 3);
    assert_eq!(&b[26..30], &[1, 0, 24, 0]);
    assert_eq!(u32::from_le_bytes([b[34], b[35], b[36], b[37]]), 24);
    assert_eq!(u32::from_le_bytes([b[38], b[39], b[40], b[41]]), 2835);
    assert_eq!(&b[70..74], b"BGRs");
    assert!(b[74..].iter().all(|&x| x == 0));
}

#[test]
fn row_padding() {
    assert_eq!(header(1, 1).unwrap().row_bytes, 4);
    assert_eq!(header(4, 1).unwrap().row_bytes, 12);
    assert_eq!(header(5, 1).unwrap().row_bytes, 16);
    assert_eq!(header(0, 0).unwrap().row_bytes, 0);
}

#[test]
fn header_too_large() {
    assert!(header(65536, 65536).is_none());
    assert!(header(u32::MAX, 1).is_none());
    assert!(header(u32::MAX, 0).is_none());
    // 21844 * 3 bytes a row, padded: 65532 bytes; 65540 rows pass 2^32 bytes
    assert!(header(21844, 65540).is_none());
    assert!(header(21844, 65534).is_some());
}

#[test]
fn texture_pixels() {
    let data: Vec<u8> = (0..18).collect();
    let t = Texture::new(3, 2, data).expect("texture");
    assert_eq!(t.width(), 3);
    assert_eq!(t.height(), 2);
    assert_eq!(t.at(0, 0), [0, 1, 2]);
    assert_eq!(t.at(2, 0), [6, 7, 8]);
    assert_eq!(t.at(0, 1), [9, 10, 11]);
    assert_eq!(t.at(2, 1), [15, 16, 17]);
}

#[test]
fn texture_size_must_match() {
    assert!(Texture::new(3, 2, vec![0; 17]).is_none());
    assert!(Texture::new(3, 2, vec![0; 19]).is_none());
    assert!(Texture::new(0, 5, vec![]).is_some());
    assert!(Texture::new(u32::MAX, u32::MAX, vec![]).is_none());
}

#[test]
fn skybox_holds_six_faces() {
    let face = |v: u8| Texture::new(1, 1, vec![v, v, v]).unwrap();
    let sky = SkyboxBackground { px: face(1), nx: face(2), py: face(3), ny: face(4), pz: face(5), nz: face(6) };
    assert_eq!(sky.px.at(0, 0), [1, 1, 1]);
    assert_eq!(sky.nz.at(0, 0), [6, 6, 6]);
}
