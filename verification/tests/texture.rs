use atlas::hash::fnv64;
use atlas::texture::bc4::bc4_block;
use atlas::texture::cache::{texcache_decode, texcache_encode, texcache_name};
use atlas::texture::chain::{bc3_compress_chain, bc3_payload_len, bc5_compress_chain, build_mip_chain, MAX_RESIZED_SIDE};
use atlas::texture::prepare::{
    bc_enabled, bc_wanted, cache_ext, prepare_data_tex, prepare_image, prepare_tex_cpu,
    puddle_alpha_is_constant, upload_format, TexCpu, TexFormat, TexImage,
};

fn gradient(w: u32, h: u32) -> Vec<u8> {
    let mut v = Vec::new();
    for y in 0..h {
        for x in 0..w {
            v.extend_from_slice(&[(x * 3) as u8, (y * 5) as u8, (x ^ y) as u8, 255 - x as u8]);
        }
    }
    v
}

fn png(w: u32, h: u32, rgba: &[u8]) -> Vec<u8> {
    let img = image::RgbaImage::from_raw(w, h, rgba.to_vec()).unwrap();
    let mut out = std::io::Cursor::new(Vec::new());
    img.write_to(&mut out, image::ImageFormat::Png).unwrap();
    out.into_inner()
}

#[test]
fn the_hash_is_fnv_1a() {
    assert_eq!(fnv64(b""), 0xcbf2_9ce4_8422_2325);
    assert_eq!(fnv64(b"a"), 0xaf63_dc4c_8601_ec8c);
    assert_eq!(fnv64(b"foobar"), 0x8594_4171_f739_67e8);
}

#[test]
fn a_constant_block_has_its_value_twice() {
    assert_eq!(bc4_block(&[77; 16])[..2], [77, 77]);
}

#[test]
fn a_block_decodes_close_to_its_values() {
    let mut vals = [0u8; 16];
    for (i, v) in vals.iter_mut().enumerate() {
        *v = (i * 17) as u8;
    }
    let b = bc4_block(&vals);
    let (r0, r1) = (b[0] as i32, b[1] as i32);
    assert_eq!((r0, r1), (255, 0));
    let mut bits = 0u64;
    for k in 0..6 {
        bits |= (b[2 + k] as u64) << (8 * k);
    }
    for (i, v) in vals.iter().enumerate() {
        let code = ((bits >> (3 * i)) & 7) as i32;
        let shown = match code {
            0 => r0,
            1 => r1,
            c => ((8 - c) * r0 + (c - 1) * r1) / 7,
        };
        assert!((shown - *v as i32).abs() <= 19, "texel {i}: {shown} for {v}");
    }
    assert_eq!((bits & 7) as u8, 1, "the lowest value is the second end");
    assert_eq!(((bits >> 45) & 7) as u8, 0, "the highest value is the first end");
}

#[test]
fn each_level_is_made_from_the_one_before() {
    let rgba = gradient(8, 4);
    let (mips, chain) = build_mip_chain(8, 4, &rgba);
    assert_eq!(mips, 4);
    assert_eq!(chain.len(), 4 * (8 * 4 + 4 * 2 + 2 + 1));
    assert_eq!(chain[..128], rgba[..]);
    let img = image::RgbaImage::from_raw(8, 4, rgba).unwrap();
    let half = image::imageops::resize(&img, 4, 2, image::imageops::FilterType::Triangle);
    assert_eq!(chain[128..160], half.as_raw()[..]);
    let quarter = image::imageops::resize(&half, 2, 1, image::imageops::FilterType::Triangle);
    assert_eq!(chain[160..168], quarter.as_raw()[..]);
}

#[test]
fn a_single_texel_or_a_wrong_size_gets_no_chain() {
    assert_eq!(build_mip_chain(1, 1, &[1, 2, 3, 4]), (1, vec![1, 2, 3, 4]));
    assert_eq!(build_mip_chain(4, 4, &[9; 12]), (1, vec![9; 12]));
}

#[test]
fn a_side_too_long_to_be_made_smaller_gets_no_chain() {
    let rgba = vec![7u8; 4 * (MAX_RESIZED_SIDE as usize + 1)];
    let (mips, chain) = build_mip_chain(MAX_RESIZED_SIDE + 1, 1, &rgba);
    assert_eq!(mips, 1);
    assert!(chain == rgba);
}

#[test]
fn payload_lengths_count_whole_blocks() {
    assert_eq!(bc3_payload_len(4, 4, 1), 16);
    assert_eq!(bc3_payload_len(5, 4, 1), 32);
    assert_eq!(bc3_payload_len(8, 8, 4), 64 + 16 + 16 + 16);
}

#[test]
fn colour_is_compressed_level_by_level() {
    let rgba = gradient(8, 8);
    let (mips, chain) = build_mip_chain(8, 8, &rgba);
    let payload = bc3_compress_chain(8, 8, mips, &chain);
    assert_eq!(payload.len(), bc3_payload_len(8, 8, mips));
    let params = texpresso::Params {
        algorithm: texpresso::Algorithm::RangeFit,
        ..texpresso::Params::default()
    };
    let mut first = vec![0u8; 64];
    texpresso::Format::Bc3.compress(&rgba, 8, 8, params, &mut first);
    assert_eq!(payload[..64], first[..]);
    let mut second = vec![0u8; 16];
    texpresso::Format::Bc3.compress(&chain[256..320], 4, 4, params, &mut second);
    assert_eq!(payload[64..80], second[..]);
}

#[test]
fn normals_are_compressed_by_channel() {
    let rgba = gradient(4, 4);
    let payload = bc5_compress_chain(4, 4, 1, &rgba);
    let mut red = [0u8; 16];
    let mut green = [0u8; 16];
    for i in 0..16 {
        red[i] = rgba[4 * i];
        green[i] = rgba[4 * i + 1];
    }
    assert_eq!(payload[..8], bc4_block(&red));
    assert_eq!(payload[8..], bc4_block(&green));
}

#[test]
fn a_cache_entry_comes_back() {
    let payload: Vec<u8> = (0..16u8).collect();
    let file = texcache_encode(4, 4, 1, &payload);
    assert_eq!(file[..12], [4, 0, 0, 0, 4, 0, 0, 0, 1, 0, 0, 0]);
    let e = texcache_decode(&file).unwrap();
    assert_eq!((e.w, e.h, e.mips), (4, 4, 1));
    assert_eq!(e.payload, payload);
    for k in 0..file.len() {
        assert!(texcache_decode(&file[..k]).is_none(), "cut to {k} bytes");
    }
    let mut longer = file;
    longer.push(0);
    assert!(texcache_decode(&longer).is_none());
    assert!(texcache_decode(&texcache_encode(0, 4, 1, &payload)).is_none());
    assert!(texcache_decode(&texcache_encode(4, 20000, 1, &payload)).is_none());
    assert!(texcache_decode(&texcache_encode(4, 4, 17, &payload)).is_none());
}

#[test]
fn a_cache_file_is_named_by_its_hash() {
    assert_eq!(texcache_name(0xff, "bc3c"), "00000000000000ff.bc3c");
    assert_eq!(cache_ext(true), "bc5c");
    assert_eq!(cache_ext(false), "bc3c");
}

#[test]
fn a_missing_file_becomes_the_placeholder() {
    let p = prepare_tex_cpu(None, None, true, false, [255, 0, 255, 255]);
    assert!(p.store.is_none());
    match p.tex {
        TexCpu::Raw { w, h, mips, chain } => {
            assert_eq!((w, h, mips, chain), (1, 1, 1, vec![255, 0, 255, 255]));
        }
        _ => panic!("not raw"),
    }
    let p = prepare_tex_cpu(Some(b"no image".to_vec()), None, true, false, [1, 2, 3, 4]);
    assert!(matches!(p.tex, TexCpu::Raw { w: 1, h: 1, .. }));
}

#[test]
fn a_small_texture_stays_raw() {
    let rgba = gradient(8, 8);
    let p = prepare_tex_cpu(Some(png(8, 8, &rgba)), None, true, false, [0; 4]);
    match p.tex {
        TexCpu::Raw { w, h, mips, chain } => {
            assert_eq!((w, h, mips), (8, 8, 4));
            assert_eq!(chain[..256], rgba[..]);
        }
        _ => panic!("not raw"),
    }
    assert!(p.store.is_none());
}

#[test]
fn a_large_texture_is_compressed_and_kept() {
    let rgba = gradient(64, 64);
    let file = png(64, 64, &rgba);
    let p = prepare_tex_cpu(Some(file.clone()), None, true, false, [0; 4]);
    let store = p.store.unwrap();
    let (w, h, mips, payload) = match p.tex {
        TexCpu::Bc3 { w, h, mips, payload } => (w, h, mips, payload),
        _ => panic!("not compressed"),
    };
    assert_eq!((w, h, mips), (64, 64, 7));
    assert_eq!(store, texcache_encode(64, 64, 7, &payload));
    let again = prepare_tex_cpu(Some(file.clone()), Some(store), true, false, [0; 4]);
    assert!(again.store.is_none());
    match again.tex {
        TexCpu::Bc3 { payload: p2, .. } => assert_eq!(p2, payload),
        _ => panic!("not from the cache"),
    }
    let n = prepare_tex_cpu(Some(file.clone()), Some(vec![1, 2, 3]), true, true, [0; 4]);
    assert!(matches!(n.tex, TexCpu::Bc5 { .. }));
    assert!(n.store.is_some());
    let off = prepare_tex_cpu(Some(file), None, false, false, [0; 4]);
    assert!(matches!(off.tex, TexCpu::Raw { .. }));
}

#[test]
fn a_decoded_image_is_prepared_by_its_size() {
    let img = TexImage { w: 64, h: 4, rgba: gradient(64, 4) };
    let p = prepare_image(Some(img), true, false, [0; 4]);
    assert!(matches!(p.tex, TexCpu::Raw { w: 64, h: 4, mips: 7, .. }));
}

#[test]
fn data_maps_are_never_compressed() {
    let t = prepare_data_tex(Some(TexImage { w: 64, h: 64, rgba: gradient(64, 64) }));
    assert!(matches!(t, TexCpu::Raw { w: 64, h: 64, mips: 7, .. }));
    match prepare_data_tex(None) {
        TexCpu::Raw { w, h, mips, chain } => {
            assert_eq!((w, h, mips, chain), (1, 1, 1, vec![0, 0, 0, 255]));
        }
        _ => panic!("not raw"),
    }
}

#[test]
fn formats_follow_the_texture() {
    let raw = prepare_data_tex(None);
    assert_eq!(upload_format(&raw, true), TexFormat::Rgba8Srgb);
    assert_eq!(upload_format(&raw, false), TexFormat::Rgba8Linear);
    let bc3 = TexCpu::Bc3 { w: 4, h: 4, mips: 1, payload: vec![0; 16] };
    assert_eq!(upload_format(&bc3, true), TexFormat::Bc3Srgb);
    assert_eq!(upload_format(&bc3, false), TexFormat::Bc3Linear);
    let bc5 = TexCpu::Bc5 { w: 4, h: 4, mips: 1, payload: vec![0; 16] };
    assert_eq!(upload_format(&bc5, true), TexFormat::Bc5Linear);
}

#[test]
fn compression_can_be_switched_off() {
    assert!(bc_enabled(None, true));
    assert!(!bc_enabled(None, false));
    assert!(!bc_enabled(Some(" 0 "), true));
    assert!(bc_enabled(Some("1"), true));
    assert!(bc_wanted(None, true, 64, 64));
    assert!(!bc_wanted(None, true, 63, 64));
}

#[test]
fn a_puddle_mask_is_looked_for_in_the_alpha() {
    let mut flat = vec![200u8; 4 * 1000];
    assert!(puddle_alpha_is_constant(&flat));
    flat[3 + 404] = 212;
    assert!(puddle_alpha_is_constant(&flat));
    flat[3 + 404] = 213;
    assert!(!puddle_alpha_is_constant(&flat));
    flat[3 + 404] = 200;
    flat[3 + 4] = 0;
    assert!(puddle_alpha_is_constant(&flat), "only every 101st texel is looked at");
}
