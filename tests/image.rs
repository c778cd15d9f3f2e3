use canviz::image::{filter_images, is_image_file, ImageData, ImagePicker};

#[test]
fn solid_color_fills_every_pixel() {
    let img = ImageData::solid_color(2, 3, 30, 30, 40, 255);
    assert_eq!(img.width, 2);
    assert_eq!(img.height, 3);
    assert_eq!(img.rgba.len(), 24);
    for px in img.rgba.chunks(4) {
        assert_eq!(px, &[30, 30, 40, 255]);
    }
    assert!(ImageData::solid_color(0, 5, 1, 2, 3, 4).rgba.is_empty());
}

#[test]
fn decode_rejects_garbage() {
    let err = ImageData::from_memory(&[1, 2, 3, 4]);
    assert!(err.is_err());
    assert!(!err.err().unwrap().message.is_empty());
}

#[test]
fn decode_bmp_from_memory() {
    // A 1x1 24-bit BMP holding one blue pixel.
    let bmp: Vec<u8> = vec![
        0x42, 0x4d, 0x3a, 0, 0, 0, 0, 0, 0, 0, 0x36, 0, 0, 0, 0x28, 0, 0, 0, 1, 0, 0, 0, 1, 0, 0,
        0, 1, 0, 24, 0, 0, 0, 0, 0, 4, 0, 0, 0, 0x13, 0x0b, 0, 0, 0x13, 0x0b, 0, 0, 0, 0, 0, 0, 0,
        0, 0, 0, 0xff, 0, 0, 0,
    ];
    let img = ImageData::from_memory(&bmp).unwrap();
    assert_eq!((img.width, img.height), (1, 1));
    assert_eq!(&img.rgba[..4], &[0, 0, 255, 255]);
}

#[test]
fn image_extensions() {
    assert!(is_image_file("/img/a.png"));
    assert!(is_image_file("/img/A.JPG"));
    assert!(is_image_file("photo.Jpeg"));
    assert!(is_image_file("/x/y.webp"));
    assert!(is_image_file("b.gif"));
    assert!(is_image_file("c.bmp"));
    assert!(!is_image_file("/img/.png"));
    assert!(!is_image_file("/img/notes.txt"));
    assert!(!is_image_file("/img.png/readme"));
    assert!(!is_image_file("/img/archive.png.gz"));
    assert!(!is_image_file(""));
}

#[test]
fn filter_keeps_order() {
    let paths = vec![
        "/w/b.png".to_string(),
        "/w/notes.txt".to_string(),
        "/w/a.jpg".to_string(),
    ];
    assert_eq!(filter_images(&paths), vec!["/w/b.png".to_string(), "/w/a.jpg".to_string()]);
}

#[test]
fn picker_walks_both_ways() {
    let mut p = ImagePicker::new();
    assert_eq!(p.current(), None);
    assert_eq!(p.next(), None);
    assert_eq!(p.previous(), None);
    let paths = vec!["/w/a.png".to_string(), "/w/b.txt".to_string(), "/w/c.png".to_string(), "/w/d.jpg".to_string()];
    p.set_from_listing(&paths);
    assert_eq!(p.count(), 3);
    assert_eq!(p.current(), Some(&"/w/a.png".to_string()));
    assert_eq!(p.next(), Some(&"/w/c.png".to_string()));
    assert_eq!(p.next(), Some(&"/w/d.jpg".to_string()));
    assert_eq!(p.next(), Some(&"/w/a.png".to_string()));
    assert_eq!(p.previous(), Some(&"/w/d.jpg".to_string()));
    p.set_single("/w/only.bmp".to_string());
    assert_eq!(p.count(), 1);
    assert_eq!(p.next(), Some(&"/w/only.bmp".to_string()));
}

#[test]
fn shuffle_with_seed_is_deterministic_permutation() {
    let paths: Vec<String> = (0..6).map(|i| format!("/w/{}.png", i)).collect();
    let mut a = ImagePicker::new();
    a.set_from_listing(&paths);
    a.shuffle_with_seed(42);
    let mut b = ImagePicker::new();
    b.set_from_listing(&paths);
    b.shuffle_with_seed(42);
    let mut seen_a = Vec::new();
    let mut seen_b = Vec::new();
    for _ in 0..6 {
        seen_a.push(a.current().unwrap().clone());
        seen_b.push(b.current().unwrap().clone());
        a.next();
        b.next();
    }
    assert_eq!(seen_a, seen_b);
    let mut sorted = seen_a.clone();
    sorted.sort();
    assert_eq!(sorted, paths);
    let mut c = ImagePicker::new();
    c.set_from_listing(&paths);
    c.shuffle();
    assert_eq!(c.count(), 6);
}

#[test]
fn shuffle_matches_generator_steps() {
    // Two images: one step with i = 1, state = 0 * m + 1 = 1, j = 1 % 2 = 1.
    let mut p = ImagePicker::new();
    p.set_from_listing(&vec!["/a.png".to_string(), "/b.png".to_string()]);
    p.shuffle_with_seed(0);
    assert_eq!(p.current(), Some(&"/a.png".to_string()));
    // Seed 1: state = m + 1, which is even, so j = 0 and the two swap.
    let mut q = ImagePicker::new();
    q.set_from_listing(&vec!["/a.png".to_string(), "/b.png".to_string()]);
    q.shuffle_with_seed(1);
    assert_eq!(q.current(), Some(&"/b.png".to_string()));
}

#[test]
fn sorting_by_path() {
    let paths = vec![
        "/w/b.png".to_string(),
        "/w/C.png".to_string(),
        "/w/a.png".to_string(),
        "/w/a/b.png".to_string(),
        "/w/a.jpg".to_string(),
    ];
    let mut p = ImagePicker::new();
    p.set_from_listing(&paths);
    p.sort_ascending();
    let mut expected = paths.clone();
    expected.sort_by(|x, y| std::path::Path::new(x).cmp(std::path::Path::new(y)));
    assert_eq!(expected[0], "/w/C.png");
    assert_eq!(expected[1], "/w/a/b.png");
    let mut seen = Vec::new();
    for _ in 0..5 {
        seen.push(p.current().unwrap().clone());
        p.next();
    }
    assert_eq!(seen, expected);
    p.sort_descending();
    expected.reverse();
    let mut seen = Vec::new();
    for _ in 0..5 {
        seen.push(p.current().unwrap().clone());
        p.next();
    }
    assert_eq!(seen, expected);
}

#[test]
fn path_order_matches_std_path() {
    let paths = [
        "", "/", "/x", "x", "d/a.png", "d/a/b.png", "d/a", "d/a-b", "../z", "-a", "./a", "-b",
        "/w/a.png", "/w/a/b.png", "a/..", "a/-", "a/.b", "é/x", "z",
    ];
    for x in paths {
        for y in paths {
            let std_lt = std::path::Path::new(x) < std::path::Path::new(y);
            assert_eq!(canviz::image::path_lt_exec(x, y), std_lt, "{:?} < {:?}", x, y);
        }
    }
}

#[test]
fn path_segments() {
    assert_eq!(canviz::image::split_segments("/w/a.png"), vec!["", "w", "a.png"]);
    assert_eq!(canviz::image::split_segments("a"), vec!["a"]);
    assert_eq!(canviz::image::split_segments(""), vec![""]);
}

#[test]
fn string_order_matches_std() {
    let words = ["", "a", "b", "ab", "aa", "B", "é", "z", "zz", "a/b", "a-b"];
    for x in words {
        for y in words {
            assert_eq!(canviz::image::str_lt(x, y), x < y, "{:?} < {:?}", x, y);
        }
    }
}
