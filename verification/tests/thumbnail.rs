use clippy2::encoding::from_base64;
use clippy2::optimize_img::{
    byte_count, compress, encode_thumbnail, optimize_img, resize_img, size_label,
    thumbnail_dimensions, thumbnail_text, CompressError, Raster, MAX_EDGE_SIZE,
};

fn gradient(width: u32, height: u32) -> Raster {
    Raster::new(width, height, gradient_bytes(width, height)).unwrap()
}

fn gradient_bytes(width: u32, height: u32) -> Vec<u8> {
    let mut data = Vec::with_capacity((width * height * 4) as usize);
    for y in 0..height {
        for x in 0..width {
            data.push((x * 255 / width.max(1)) as u8);
            data.push((y * 255 / height.max(1)) as u8);
            data.push(((x + y) % 256) as u8);
            data.push(255);
        }
    }
    data
}

fn png_of(raster: &Raster) -> Vec<u8> {
    let buffer = image::RgbaImage::from_raw(raster.width(), raster.height(), raster.data().clone())
        .unwrap();
    let mut bytes = Vec::new();
    image::DynamicImage::ImageRgba8(buffer)
        .write_to(&mut std::io::Cursor::new(&mut bytes), image::ImageFormat::Png)
        .unwrap();
    bytes
}

fn decoded(thumbnail: &str) -> image::DynamicImage {
    let png = from_base64(thumbnail).unwrap();
    assert_eq!(&png[..8], &[0x89, b'P', b'N', b'G', 0x0d, 0x0a, 0x1a, 0x0a]);
    assert_eq!(&png[8..16], &[0, 0, 0, 13, b'I', b'H', b'D', b'R']);
    let back = image::load_from_memory(&png).unwrap();
    assert_eq!(&png[16..20], &back.width().to_be_bytes());
    assert_eq!(&png[20..24], &back.height().to_be_bytes());
    back
}

#[test]
fn the_bound_is_240() {
    assert_eq!(MAX_EDGE_SIZE, 240);
}

#[test]
fn small_images_keep_their_dimensions() {
    assert_eq!(thumbnail_dimensions(1, 1), (1, 1));
    assert_eq!(thumbnail_dimensions(240, 240), (240, 240));
    assert_eq!(thumbnail_dimensions(240, 1), (240, 1));
    assert_eq!(thumbnail_dimensions(17, 239), (17, 239));
    assert_eq!(thumbnail_dimensions(0, 0), (0, 0));
    assert_eq!(thumbnail_dimensions(0, 240), (0, 240));
}

#[test]
fn large_images_are_scaled_to_the_bound() {
    assert_eq!(thumbnail_dimensions(480, 240), (240, 120));
    assert_eq!(thumbnail_dimensions(240, 480), (120, 240));
    assert_eq!(thumbnail_dimensions(241, 241), (240, 240));
    assert_eq!(thumbnail_dimensions(241, 240), (240, 239));
    assert_eq!(thumbnail_dimensions(240, 241), (239, 240));
    assert_eq!(thumbnail_dimensions(1920, 1080), (240, 135));
    assert_eq!(thumbnail_dimensions(1080, 1920), (135, 240));
    assert_eq!(thumbnail_dimensions(1000, 333), (240, 79));
    assert_eq!(thumbnail_dimensions(4000, 3000), (240, 180));
    assert_eq!(thumbnail_dimensions(1000, 1), (240, 0));
    assert_eq!(thumbnail_dimensions(1, 1000), (0, 240));
    assert_eq!(thumbnail_dimensions(u32::MAX, u32::MAX), (240, 240));
    assert_eq!(thumbnail_dimensions(u32::MAX, u32::MAX - 1), (240, 239));
    assert_eq!(thumbnail_dimensions(u32::MAX, 1), (240, 0));
    assert_eq!(thumbnail_dimensions(0, 1000), (0, 240));
}

#[test]
fn the_longer_edge_is_the_bound_and_the_ratio_is_kept() {
    for (w, h) in [(241u32, 1u32), (3000, 2000), (777, 778), (5000, 241), (300, 300), (9999, 1234)] {
        let (tw, th) = thumbnail_dimensions(w, h);
        assert_eq!(tw.max(th), 240);
        let exact = (tw as u64) * (h as u64);
        let got = (th as u64) * (w as u64);
        let off = if exact > got { exact - got } else { got - exact };
        assert!(off < w.max(h) as u64, "{w}x{h} -> {tw}x{th}");
    }
}

#[test]
fn the_label_names_the_original_dimensions() {
    assert_eq!(size_label(640, 480), "640x480");
    assert_eq!(size_label(0, 0), "0x0");
    assert_eq!(size_label(1, 100), "1x100");
    assert_eq!(size_label(u32::MAX, 10), "4294967295x10");
}

#[test]
fn resize_hands_small_images_back() {
    let img = gradient(30, 20);
    let data = img.data().clone();
    let (out, label, dims) = resize_img(img);
    assert_eq!((out.width(), out.height()), (30, 20));
    assert_eq!(out.data(), &data);
    assert_eq!(label, "30x20");
    assert_eq!(dims, (30, 20));
}

#[test]
fn resize_scales_large_images() {
    let img = gradient(600, 300);
    let before = img.data().clone();
    let (out, label, dims) = resize_img(img);
    assert_eq!((out.width(), out.height()), (240, 120));
    assert_eq!(out.data().len(), 240 * 120 * 4);
    assert_ne!(out.data(), &before);
    assert_eq!(label, "600x300");
    assert_eq!(dims, (240, 120));
    // Left to right the red channel still rises.
    assert!(out.data()[0] < out.data()[4 * 239]);
}

#[test]
fn a_raster_holds_exactly_its_pixels() {
    let img = Raster::new(3, 2, gradient_bytes(3, 2)).unwrap();
    assert_eq!((img.width(), img.height()), (3, 2));
    assert_eq!(img.data(), &gradient_bytes(3, 2));
    let mut long = gradient_bytes(3, 2);
    long.push(9);
    assert!(Raster::new(3, 2, long).is_none());
    let mut short = gradient_bytes(3, 2);
    short.pop();
    assert!(Raster::new(3, 2, short).is_none());
    assert!(Raster::new(2, 3, gradient_bytes(3, 2)).is_some());
    assert!(Raster::new(0, 7, Vec::new()).is_some());
    assert!(Raster::new(u32::MAX, u32::MAX, Vec::new()).is_none());
}

#[test]
fn pixels_take_four_bytes_each() {
    assert_eq!(byte_count(0, 5), 0);
    assert_eq!(byte_count(3, 2), 24);
    assert_eq!(byte_count(240, 240), 230_400);
    assert_eq!(byte_count(u32::MAX, u32::MAX), 4 * (u32::MAX as u128) * (u32::MAX as u128));
}

#[test]
fn compress_makes_an_indexed_png_of_the_same_size_for_small_images() {
    let img = gradient(64, 48);
    let (thumbnail, label) = compress(img).unwrap();
    assert_eq!(label, "64x48");
    let back = decoded(&thumbnail);
    assert_eq!((back.width(), back.height()), (64, 48));
}

#[test]
fn compress_bounds_large_images() {
    let (thumbnail, label) = compress(gradient(500, 1000)).unwrap();
    assert_eq!(label, "500x1000");
    let back = decoded(&thumbnail);
    assert_eq!((back.width(), back.height()), (120, 240));

    let (thumbnail, label) = compress(gradient(241, 100)).unwrap();
    assert_eq!(label, "241x100");
    let back = decoded(&thumbnail);
    assert_eq!((back.width(), back.height()), (240, 99));
}

#[test]
fn compress_keeps_the_colours_roughly() {
    let mut data = gradient_bytes(8, 8);
    for px in data.chunks_mut(4) {
        px.copy_from_slice(&[200, 10, 10, 255]);
    }
    let (thumbnail, _) = compress(Raster::new(8, 8, data).unwrap()).unwrap();
    let back = decoded(&thumbnail).to_rgba8();
    let px = back.get_pixel(3, 3).0;
    assert!(px[0] > 180 && px[1] < 40 && px[2] < 40 && px[3] == 255, "{px:?}");
}

#[test]
fn a_thumbnail_without_pixels_is_refused() {
    assert_eq!(compress(gradient(1000, 1)).err(), Some(CompressError::Empty));
    assert_eq!(compress(gradient(2, 900)).err(), Some(CompressError::Empty));
    let nothing = Raster::new(0, 0, Vec::new()).unwrap();
    assert_eq!(compress(nothing).err(), Some(CompressError::Empty));
    let no_width = Raster::new(0, 5, Vec::new()).unwrap();
    assert_eq!(compress(no_width).err(), Some(CompressError::Empty));
}

#[test]
fn optimize_reads_encoded_images() {
    let png = png_of(&gradient(320, 200));
    let (thumbnail, label) = optimize_img(&png).unwrap();
    assert_eq!(label, "320x200");
    let back = decoded(&thumbnail);
    assert_eq!((back.width(), back.height()), (240, 150));
    assert!(from_base64(&thumbnail).unwrap() != png);
}

#[test]
fn optimize_reads_tiff_as_the_clipboard_gives_it() {
    let buffer = image::RgbaImage::from_raw(300, 100, gradient_bytes(300, 100)).unwrap();
    let mut tiff = Vec::new();
    image::DynamicImage::ImageRgba8(buffer)
        .write_to(&mut std::io::Cursor::new(&mut tiff), image::ImageFormat::Tiff)
        .unwrap();
    let (thumbnail, label) = optimize_img(&tiff).unwrap();
    assert_eq!(label, "300x100");
    let back = decoded(&thumbnail);
    assert_eq!((back.width(), back.height()), (240, 80));
}

#[test]
fn bytes_that_are_no_image_are_refused() {
    assert_eq!(optimize_img(b"").err(), Some(CompressError::Decode));
    assert_eq!(optimize_img(b"definitely not an image").err(), Some(CompressError::Decode));
    let mut png = png_of(&gradient(10, 10));
    png.truncate(20);
    assert_eq!(optimize_img(&png).err(), Some(CompressError::Decode));
}

#[test]
fn the_thumbnail_text_is_base64() {
    assert_eq!(thumbnail_text(b"foobar"), Ok("Zm9vYmFy".to_string()));
    assert_eq!(thumbnail_text(b""), Ok(String::new()));
}

#[test]
fn every_compress_error_has_its_message() {
    let all = [
        CompressError::Decode,
        CompressError::Empty,
        CompressError::Quantize,
        CompressError::Encode,
    ];
    let texts: Vec<String> = all.iter().map(|e| e.message()).collect();
    for (i, a) in texts.iter().enumerate() {
        assert!(!a.is_empty());
        for b in &texts[i + 1..] {
            assert_ne!(a, b);
        }
    }
    assert_eq!(CompressError::Quantize.message(), "Failed to quantize image");
}

#[test]
fn an_encoded_image_that_scales_to_nothing_is_refused_as_empty() {
    let wide = png_of(&gradient(1000, 1));
    assert_eq!(optimize_img(&wide).err(), Some(CompressError::Empty));
    let tall = png_of(&gradient(2, 900));
    assert_eq!(optimize_img(&tall).err(), Some(CompressError::Empty));
    // The same proportions within the bound are compressed as they are.
    let small = png_of(&gradient(200, 1));
    let (thumbnail, label) = optimize_img(&small).unwrap();
    assert_eq!(label, "200x1");
    let back = decoded(&thumbnail);
    assert_eq!((back.width(), back.height()), (200, 1));
}

#[test]
fn a_thumbnail_shows_the_palette_colours_at_the_indices() {
    let palette = vec![[255, 0, 0, 255], [0, 255, 0, 255], [0, 0, 255, 128]];
    let indices = vec![0, 1, 2, 2, 1, 0];
    let thumbnail = encode_thumbnail(&palette, &indices, 3, 2).unwrap();
    let back = decoded(&thumbnail).to_rgba8();
    assert_eq!((back.width(), back.height()), (3, 2));
    for (at, index) in indices.iter().enumerate() {
        let (x, y) = (at as u32 % 3, at as u32 / 3);
        assert_eq!(back.get_pixel(x, y).0, palette[*index as usize]);
    }
    // The same image gives the same thumbnail; another image another one.
    assert_eq!(encode_thumbnail(&palette, &indices, 3, 2), Ok(thumbnail.clone()));
    assert_ne!(encode_thumbnail(&palette, &vec![0, 0, 0, 0, 0, 0], 3, 2), Ok(thumbnail.clone()));
    assert_ne!(encode_thumbnail(&palette, &indices, 2, 3), Ok(thumbnail));
}

#[test]
fn indices_that_are_not_one_per_pixel_are_refused() {
    let palette = vec![[1, 2, 3, 255]];
    assert_eq!(encode_thumbnail(&palette, &vec![0, 0, 0], 2, 2), Err(CompressError::Encode));
    assert_eq!(encode_thumbnail(&palette, &vec![0; 5], 2, 2), Err(CompressError::Encode));
    assert_eq!(encode_thumbnail(&palette, &Vec::new(), 1, 1), Err(CompressError::Encode));
    assert!(encode_thumbnail(&palette, &vec![0; 4], 2, 2).is_ok());
    // Without pixels or without colours the writer itself refuses.
    assert_eq!(encode_thumbnail(&palette, &Vec::new(), 0, 0), Err(CompressError::Encode));
    assert_eq!(encode_thumbnail(&Vec::new(), &vec![0; 4], 2, 2), Err(CompressError::Encode));
}

#[test]
fn every_image_in_memory_can_be_scaled() {
    // Extreme proportions: the thumbnail keeps the bound on the longer edge.
    let (out, label, dims) = resize_img(gradient(20_000, 3));
    assert_eq!((out.width(), out.height()), (240, 0));
    assert_eq!(out.data().len(), 0);
    assert_eq!(label, "20000x3");
    assert_eq!(dims, (240, 0));
    let (out, _, dims) = resize_img(gradient(241, 5000));
    assert_eq!((out.width(), out.height()), (11, 240));
    assert_eq!(out.data().len(), 11 * 240 * 4);
    assert_eq!(dims, (11, 240));
}

#[test]
fn a_thumbnail_is_owed_where_one_can_be_made() {
    // Any palette of up to 256 colours with one index per pixel will do.
    let two = vec![[0, 0, 0, 255], [255, 255, 255, 255]];
    assert!(encode_thumbnail(&two, &vec![0, 1, 1, 0], 2, 2).is_ok());
    assert!(encode_thumbnail(&two, &vec![1], 1, 1).is_ok());
    assert!(encode_thumbnail(&two, &vec![0; 240 * 240], 240, 240).is_ok());
    let full: Vec<[u8; 4]> = (0..=255u8).map(|v| [v, v, v, 255]).collect();
    let ramp: Vec<u8> = (0..=255u8).collect();
    assert!(encode_thumbnail(&full, &ramp, 16, 16).is_ok());
    // More colours than a palette can hold: the writer refuses.
    let mut many = full.clone();
    many.push([1, 2, 3, 4]);
    assert_eq!(encode_thumbnail(&many, &ramp, 16, 16), Err(CompressError::Encode));
}
