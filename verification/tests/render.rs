use pdf_images::error::AppError;
use pdf_images::fingerprint::content_fingerprint;
use pdf_images::format::OutputFormat;
use pdf_images::render::{
    object_key, render_document, Raster, RenderJob, RenderParameters, RenderedImage,
};

fn raster(width: u32, height: u32) -> Raster {
    let mut rgba = Vec::new();
    for y in 0..height {
        for x in 0..width {
            rgba.extend_from_slice(&[(x * 40) as u8, (y * 60) as u8, 200, 255]);
        }
    }
    Raster::new(width, height, rgba).expect("a buffer of the right length")
}

fn parameters(format: OutputFormat, pages: Option<&str>, scale: Option<f32>) -> RenderParameters {
    RenderParameters::resolve(format, pages, scale.map(f32::to_bits)).expect("valid parameters")
}

fn render_all(mut job: RenderJob) -> (Vec<usize>, Vec<RenderedImage>) {
    let mut drawn = Vec::new();
    while let Some(page) = job.next_page() {
        drawn.push(page);
        job = job.page_rendered(Some(raster(4, 3)));
    }
    (drawn, job.finish())
}

fn names(images: &[RenderedImage]) -> Vec<String> {
    images.iter().map(|image| image.name.clone()).collect()
}

#[test]
fn object_key_joins_fingerprint_page_and_extension() {
    assert_eq!(object_key("abc123", 0, OutputFormat::Png), "abc123-0.png");
    assert_eq!(object_key("abc123", 12, OutputFormat::Jpeg), "abc123-12.jpg");
    assert_eq!(object_key("", 7, OutputFormat::Farbfeld), "-7.ff");
    assert_eq!(
        object_key("f", usize::MAX, OutputFormat::OpenExr),
        format!("f-{}.exr", usize::MAX)
    );
}

#[test]
fn parameters_resolve_to_what_was_asked() {
    let resolved = parameters(OutputFormat::Gif, Some("2,4-5"), Some(2.0));
    assert_eq!(resolved.format, OutputFormat::Gif);
    assert_eq!(resolved.scale.map(|s| s.bits()), Some(2.0f32.to_bits()));
    let pages = resolved.pages.expect("a selection");
    assert!(pages.contains(1) && pages.contains(3) && pages.contains(4));
    assert!(!pages.contains(0) && !pages.contains(2) && !pages.contains(5));

    let plain = parameters(OutputFormat::Png, None, None);
    assert!(plain.pages.is_none());
    assert!(plain.scale.is_none());
}

#[test]
fn parameters_are_refused_pages_first() {
    let refused = |pages: Option<&str>, scale: Option<f32>| {
        RenderParameters::resolve(OutputFormat::Png, pages, scale.map(f32::to_bits)).unwrap_err()
    };
    assert_eq!(
        refused(Some("0"), Some(2.0)),
        AppError::InvalidPageRange("page numbers must be 1 or greater".to_string())
    );
    assert_eq!(
        refused(Some("1"), Some(15.0)),
        AppError::InvalidScale("scale must be between 0.1 and 10.0".to_string())
    );
    assert_eq!(
        refused(None, Some(0.05)),
        AppError::InvalidScale("scale must be between 0.1 and 10.0".to_string())
    );
    assert_eq!(
        refused(Some("x"), Some(99.0)),
        AppError::InvalidPageRange("invalid number: x".to_string())
    );
}

#[test]
fn pages_that_do_not_exist_pass_the_parameters() {
    let resolved = RenderParameters::resolve(OutputFormat::Png, Some("9"), None);
    assert!(resolved.is_ok());
}

#[test]
fn a_raster_needs_four_bytes_for_each_pixel() {
    assert!(Raster::new(2, 3, vec![0; 24]).is_some());
    assert!(Raster::new(2, 3, vec![0; 23]).is_none());
    assert!(Raster::new(2, 3, vec![0; 25]).is_none());
    assert!(Raster::new(0, 0, vec![]).is_some());
    assert!(Raster::new(0, 5, vec![]).is_some());
    assert!(Raster::new(0, 0, vec![0; 4]).is_none());
    assert!(Raster::new(u32::MAX, u32::MAX, vec![0; 16]).is_none());
    assert!(Raster::new(1 << 31, 1 << 31, vec![]).is_none());
}

#[test]
fn a_raster_is_encoded_as_png_without_loss() {
    let encoded = raster(5, 4).encode(OutputFormat::Png).expect("an encoded image");
    assert_eq!(&encoded[..8], b"\x89PNG\r\n\x1a\n");
    let decoded = image::load_from_memory(&encoded).expect("a readable image").into_rgba8();
    assert_eq!((decoded.width(), decoded.height()), (5, 4));
    assert_eq!(decoded.get_pixel(3, 2).0, [120, 120, 200, 255]);
    assert_eq!(decoded.get_pixel(0, 0).0, [0, 0, 200, 255]);
}

#[test]
fn a_raster_is_encoded_in_the_format_asked_for() {
    let formats = [
        OutputFormat::Png,
        OutputFormat::Jpeg,
        OutputFormat::Gif,
        OutputFormat::WebP,
        OutputFormat::Pnm,
        OutputFormat::Tiff,
        OutputFormat::Bmp,
        OutputFormat::Ico,
        OutputFormat::Avif,
        OutputFormat::Qoi,
    ];
    let mut report = Vec::new();
    for format in formats.iter() {
        match raster(8, 8).encode(*format) {
            None => report.push(format!("{:?}: not encoded", format)),
            Some(encoded) => match image::guess_format(&encoded) {
                Ok(found) if found == format.as_image_format() => {}
                other => report.push(format!("{:?}: {:?}", format, other)),
            },
        }
    }
    assert_eq!(report, Vec::<String>::new());
}

#[test]
fn encoders_that_take_no_eight_bit_colour_give_no_image() {
    for format in [OutputFormat::Hdr, OutputFormat::OpenExr, OutputFormat::Farbfeld] {
        assert_eq!(raster(8, 8).encode(format), None, "{:?}", format);
        assert_eq!(raster(1, 1).encode(format), None, "{:?}", format);
        assert_eq!(raster(3, 5).encode(format), None, "{:?}", format);
    }
}

#[test]
fn rasters_of_odd_sizes_are_encoded_or_left_out() {
    let formats = [
        OutputFormat::Png,
        OutputFormat::Jpeg,
        OutputFormat::Gif,
        OutputFormat::WebP,
        OutputFormat::Pnm,
        OutputFormat::Tiff,
        OutputFormat::Tga,
        OutputFormat::Bmp,
        OutputFormat::Ico,
        OutputFormat::Hdr,
        OutputFormat::OpenExr,
        OutputFormat::Farbfeld,
        OutputFormat::Avif,
        OutputFormat::Qoi,
    ];
    let sizes = [(0, 0), (0, 5), (5, 0), (1, 1), (1, 3), (257, 1), (1, 257), (70_000, 1), (1, 70_000)];
    for format in formats.iter() {
        for (width, height) in sizes.iter() {
            if let Some(encoded) = raster(*width, *height).encode(*format) {
                assert!(!encoded.is_empty(), "{:?} {}x{}", format, width, height);
            }
        }
    }
}

#[test]
fn a_raster_is_encoded_as_tga() {
    let encoded = raster(8, 8).encode(OutputFormat::Tga).expect("an encoded image");
    let decoded = image::load_from_memory_with_format(&encoded, image::ImageFormat::Tga)
        .expect("a readable image");
    assert_eq!((decoded.width(), decoded.height()), (8, 8));
}

#[test]
fn an_image_too_large_for_its_format_is_not_encoded() {
    assert_eq!(raster(300, 2).encode(OutputFormat::Ico), None);
}

#[test]
fn every_page_of_a_document_is_rendered_in_order() {
    let content = b"a document of five pages";
    let job = RenderJob::plan(content, parameters(OutputFormat::Png, None, None), 5).unwrap();
    let (drawn, images) = render_all(job);
    assert_eq!(drawn, vec![0, 1, 2, 3, 4]);
    let fingerprint = content_fingerprint(content);
    let expected: Vec<String> = (0..5).map(|page| format!("{}-{}.png", fingerprint, page)).collect();
    assert_eq!(names(&images), expected);
    for image in images.iter() {
        assert_eq!(&image.bytes[..8], b"\x89PNG\r\n\x1a\n");
    }
}

#[test]
fn selected_pages_are_rendered_in_ascending_order() {
    let content = b"a document of six pages";
    let job =
        RenderJob::plan(content, parameters(OutputFormat::Png, Some("2,4-5"), None), 6).unwrap();
    let (drawn, images) = render_all(job);
    assert_eq!(drawn, vec![1, 3, 4]);
    let fingerprint = content_fingerprint(content);
    assert_eq!(
        names(&images),
        vec![
            format!("{}-1.png", fingerprint),
            format!("{}-3.png", fingerprint),
            format!("{}-4.png", fingerprint),
        ]
    );
}

#[test]
fn pages_one_and_three_as_jpeg_at_double_scale() {
    let content = b"a document of three pages";
    let job = RenderJob::plan(content, parameters(OutputFormat::Jpeg, Some("1,3"), Some(2.0)), 3)
        .unwrap();
    assert_eq!(job.scale().map(|s| f32::from_bits(s.bits())), Some(2.0));
    let (drawn, images) = render_all(job);
    assert_eq!(drawn, vec![0, 2]);
    let fingerprint = content_fingerprint(content);
    assert_eq!(
        names(&images),
        vec![format!("{}-0.jpg", fingerprint), format!("{}-2.jpg", fingerprint)]
    );
    for image in images.iter() {
        assert_eq!(&image.bytes[..3], &[0xff, 0xd8, 0xff]);
    }
}

#[test]
fn a_selection_beyond_the_document_is_refused_when_planned() {
    let refused = RenderJob::plan(b"three pages", parameters(OutputFormat::Png, Some("9"), None), 3);
    assert_eq!(
        refused.err(),
        Some(AppError::InvalidPageRange(
            "page 9 is out of range (document has 3 pages)".to_string()
        ))
    );
    let refused =
        RenderJob::plan(b"three pages", parameters(OutputFormat::Png, Some("1-4"), None), 3);
    assert_eq!(
        refused.err(),
        Some(AppError::InvalidPageRange(
            "page 4 is out of range (document has 3 pages)".to_string()
        ))
    );
    assert!(RenderJob::plan(b"three pages", parameters(OutputFormat::Png, Some("1-3"), None), 3)
        .is_ok());
}

#[test]
fn a_page_that_cannot_be_drawn_is_left_out() {
    let content = b"a document of three pages";
    let mut job = RenderJob::plan(content, parameters(OutputFormat::Png, None, None), 3).unwrap();
    assert_eq!(job.next_page(), Some(0));
    job = job.page_rendered(Some(raster(2, 2)));
    assert_eq!(job.next_page(), Some(1));
    job = job.page_rendered(None);
    assert_eq!(job.next_page(), Some(2));
    job = job.page_rendered(Some(raster(2, 2)));
    assert_eq!(job.next_page(), None);
    let fingerprint = content_fingerprint(content);
    assert_eq!(
        names(&job.finish()),
        vec![format!("{}-0.png", fingerprint), format!("{}-2.png", fingerprint)]
    );
}

#[test]
fn a_page_that_cannot_be_encoded_is_left_out() {
    let mut job =
        RenderJob::plan(b"two pages", parameters(OutputFormat::Ico, None, None), 2).unwrap();
    job = job.page_rendered(Some(raster(300, 2)));
    job = job.page_rendered(Some(raster(16, 16)));
    let images = job.finish();
    assert_eq!(names(&images), vec![format!("{}-1.ico", content_fingerprint(b"two pages"))]);
}

#[test]
fn encoded_pages_are_kept_as_they_are() {
    let mut job =
        RenderJob::plan(b"two pages", parameters(OutputFormat::Bmp, None, None), 2).unwrap();
    job = job.page_encoded(Some(vec![1, 2, 3]));
    job = job.page_encoded(None);
    assert_eq!(
        job.finish(),
        vec![RenderedImage {
            name: format!("{}-0.bmp", content_fingerprint(b"two pages")),
            bytes: vec![1, 2, 3],
        }]
    );
}

#[test]
fn no_page_rendered_gives_no_image() {
    let mut job =
        RenderJob::plan(b"two pages", parameters(OutputFormat::Png, None, None), 2).unwrap();
    job = job.page_rendered(None);
    job = job.page_rendered(None);
    assert_eq!(job.finish(), vec![]);
}

#[test]
fn a_document_without_pages_gives_no_image() {
    let job = RenderJob::plan(b"no pages", parameters(OutputFormat::Png, None, None), 0).unwrap();
    assert_eq!(job.next_page(), None);
    assert_eq!(job.finish(), vec![]);
}

#[test]
fn the_same_document_gives_the_same_names() {
    let render = |content: &[u8]| {
        let job = RenderJob::plan(content, parameters(OutputFormat::WebP, Some("2-3"), None), 4)
            .unwrap();
        names(&render_all(job).1)
    };
    let first = render(b"identical content");
    let second = render(&b"identical content".to_vec());
    assert_eq!(first, second);
    assert_ne!(first, render(b"other content"));
}

#[test]
fn the_same_raster_is_encoded_to_the_same_bytes() {
    let formats = [
        OutputFormat::Png,
        OutputFormat::Jpeg,
        OutputFormat::Gif,
        OutputFormat::WebP,
        OutputFormat::Pnm,
        OutputFormat::Tga,
        OutputFormat::Bmp,
        OutputFormat::Ico,
        OutputFormat::Qoi,
    ];
    for format in formats.iter() {
        let first = raster(9, 7).encode(*format).expect("an encoded image");
        let second = raster(9, 7).encode(*format).expect("an encoded image");
        assert_eq!(first, second, "{:?}", format);
        let other = raster(7, 9).encode(*format).expect("an encoded image");
        assert_ne!(first, other, "{:?}", format);
    }
}

#[test]
fn a_document_is_rendered_page_by_page_in_order() {
    let content = b"a document of four pages";
    let asked = std::cell::RefCell::new(Vec::new());
    let images = render_document(content, parameters(OutputFormat::Png, None, None), 4, |page| {
        asked.borrow_mut().push(page);
        Some(raster(2 + page as u32, 2))
    })
    .unwrap();
    assert_eq!(asked.into_inner(), vec![0, 1, 2, 3]);
    let fingerprint = content_fingerprint(content);
    let expected: Vec<String> = (0..4).map(|page| format!("{}-{}.png", fingerprint, page)).collect();
    assert_eq!(names(&images), expected);
    for (page, image) in images.iter().enumerate() {
        assert_eq!(Some(image.bytes.clone()), raster(2 + page as u32, 2).encode(OutputFormat::Png));
    }
}

#[test]
fn a_selection_is_rendered_and_failed_pages_are_left_out() {
    let content = b"a document of six pages";
    let asked = std::cell::RefCell::new(Vec::new());
    let images =
        render_document(content, parameters(OutputFormat::Jpeg, Some("2,4-5"), None), 6, |page| {
            asked.borrow_mut().push(page);
            if page == 3 {
                None
            } else {
                Some(raster(3, 3))
            }
        })
        .unwrap();
    assert_eq!(asked.into_inner(), vec![1, 3, 4]);
    let fingerprint = content_fingerprint(content);
    assert_eq!(
        names(&images),
        vec![format!("{}-1.jpg", fingerprint), format!("{}-4.jpg", fingerprint)]
    );
}

#[test]
fn a_selection_beyond_the_document_draws_nothing() {
    let asked = std::cell::RefCell::new(Vec::new());
    let refused =
        render_document(b"three pages", parameters(OutputFormat::Png, Some("9"), None), 3, |page| {
            asked.borrow_mut().push(page);
            Some(raster(1, 1))
        });
    assert_eq!(
        refused,
        Err(AppError::InvalidPageRange(
            "page 9 is out of range (document has 3 pages)".to_string()
        ))
    );
    assert_eq!(asked.into_inner(), Vec::<usize>::new());
}

#[test]
fn a_format_without_an_encoder_for_drawn_pages_gives_no_image() {
    for format in [OutputFormat::Hdr, OutputFormat::OpenExr, OutputFormat::Farbfeld] {
        let images =
            render_document(b"two pages", parameters(format, None, None), 2, |_| Some(raster(4, 4)))
                .unwrap();
        assert_eq!(images, vec![]);
    }
}
