//! The rendering of one document: which pages, under which names, and what
//! becomes of a page that cannot be rendered.
//!
//! Drawing a page is not done here. A [`RenderJob`] says which page is to be
//! drawn next, takes the raster that was drawn, or the news that none could
//! be, encodes it and keeps the image under its object key.
//! [`render_document`] runs a job from its plan to its images, and asks the
//! caller for each page's raster on the way.

use vstd::prelude::*;

use crate::error::{AppError, Failure};
use crate::fingerprint::{content_fingerprint, fingerprint_text};
use crate::format::OutputFormat;
use crate::laws::lemma_order_ascends;
use crate::pages::{
    is_greatest, lists, out_of_range_text, page_order, pages_in_order, selected_set,
    selection_of, PageSelection,
};
use crate::scale::{scale_accepted, scale_refused_text, Scale};
use crate::text::{append_decimal, decimal, text_of};

verus! {

/// What a request asks of the rendering.
#[derive(Debug)]
pub struct RenderParameters {
    pub format: OutputFormat,
    /// The factor by which pages are enlarged; their own size where there is none.
    pub scale: Option<Scale>,
    /// The pages to render; all of them where there is none.
    pub pages: Option<PageSelection>,
}

/// The pages that a request asks for: what its page expression selects, where
/// it has one.
pub open spec fn requested_pages(pages: Option<Seq<char>>) -> Result<Option<Set<nat>>, Seq<char>> {
    match pages {
        None => Ok(None),
        Some(expression) => match selection_of(expression) {
            Ok(selected) => Ok(Some(selected)),
            Err(reason) => Err(reason),
        },
    }
}

/// The bit pattern of a scale factor, where there is one.
pub open spec fn scale_pattern(scale: Option<Scale>) -> Option<u32> {
    match scale {
        None => None,
        Some(factor) => Some(factor.pattern()),
    }
}

/// What a request asks of the rendering, as contracts speak of it.
pub struct Parameters {
    pub format: OutputFormat,
    /// The bit pattern of the scale factor.
    pub scale: Option<u32>,
    pub pages: Option<Set<nat>>,
}

impl View for RenderParameters {
    type V = Parameters;

    open spec fn view(&self) -> Parameters {
        Parameters {
            format: self.format,
            scale: scale_pattern(self.scale),
            pages: selected_set(self.pages),
        }
    }
}

/// What the parameters of a request resolve to: the page expression is judged
/// first, then the scale factor.
pub open spec fn resolved(format: OutputFormat, pages: Option<Seq<char>>, scale: Option<u32>) -> Result<
    Parameters,
    Failure,
> {
    match requested_pages(pages) {
        Err(reason) => Err(Failure::InvalidPageRange(reason)),
        Ok(wanted) => if scale matches Some(bits) && !scale_accepted(bits) {
            Err(Failure::InvalidScale(scale_refused_text()))
        } else {
            Ok(Parameters { format, scale, pages: wanted })
        },
    }
}

impl RenderParameters {
    /// Reads the parameters of a request. The page expression is judged
    /// first, then the scale factor, given by its bit pattern. Whether the
    /// pages exist is not asked here: no document is at hand yet.
    pub fn resolve(format: OutputFormat, pages: Option<&str>, scale: Option<u32>) -> (r: Result<
        RenderParameters,
        AppError,
    >)
        ensures
            match resolved(format, text_of(pages), scale) {
                Err(failure) => r matches Err(e) && e@ == failure,
                Ok(wanted) => r matches Ok(parameters) && parameters@ == wanted,
            },
    {
        let pages = match pages {
            None => None,
            Some(expression) => match PageSelection::from_str(expression) {
                Ok(selection) => Some(selection),
                Err(e) => {
                    return Err(e);
                },
            },
        };
        let scale = match scale {
            None => None,
            Some(bits) => match Scale::from_bits(bits) {
                Ok(factor) => Some(factor),
                Err(e) => {
                    return Err(e);
                },
            },
        };
        Ok(RenderParameters { format, scale, pages })
    }
}

/// The key under which the image of a page is stored: the document's
/// fingerprint, the page counted from zero, and the format's extension.
pub open spec fn object_key_text(fingerprint: Seq<char>, page: nat, format: OutputFormat) -> Seq<
    char,
> {
    fingerprint + "-"@ + decimal(page) + "."@ + format.extension_text()
}

/// Builds the object key of a page.
pub fn object_key(fingerprint: &str, page: usize, format: OutputFormat) -> (key: String)
    ensures
        key@ == object_key_text(fingerprint@, page as nat, format),
{
    let mut key = String::from_str(fingerprint);
    key.append("-");
    append_decimal(&mut key, page);
    key.append(".");
    key.append(format.extension());
    key
}

/// A page as it was drawn: four bytes, red, green, blue and alpha, for each of
/// `width` times `height` pixels, row by row.
#[derive(Debug)]
pub struct Raster {
    width: u32,
    height: u32,
    rgba: Vec<u8>,
}

/// What `image::DynamicImage::write_to` writes for the image of `width` by
/// `height` pixels whose bytes, four for each pixel, are `rgba`: the encoded
/// image, or none where the encoder refuses the image. It stands for the
/// encoders whose result follows from the image alone: not for those of AVIF
/// and TIFF.
pub uninterp spec fn encoded_image(
    width: u32,
    height: u32,
    rgba: Seq<u8>,
    encoder: image::ImageFormat,
) -> Option<Seq<u8>>;

/// `image::RgbaImage::from_raw`, and `image::DynamicImage::write_to` on the
/// image it gives, into a buffer in memory. Taken on trust: that the encoder
/// returns, with the encoded image or without one, for every image whose
/// buffer has the length its size asks for; that what it returns depends on
/// the image and the encoder alone, for every encoder but two, that of AVIF,
/// which splits its work by the number of threads the machine offers, and
/// that of TIFF, which writes in the byte order of the machine; and that it
/// returns without an image for Radiance HDR, OpenEXR and farbfeld, whose
/// encoders refuse every colour type but their own and are given no
/// conversion from eight-bit colour.
#[verifier::external_body]
fn write_rgba(width: u32, height: u32, rgba: Vec<u8>, encoder: image::ImageFormat) -> (encoded:
    Option<Vec<u8>>)
    requires
        rgba@.len() == 4 * width * height,
    ensures
        encoder != image::ImageFormat::Avif && encoder != image::ImageFormat::Tiff
            ==> encoded_view(encoded) == encoded_image(
            width,
            height,
            rgba@,
            encoder,
        ),
        encoder == image::ImageFormat::Hdr || encoder == image::ImageFormat::OpenExr || encoder
            == image::ImageFormat::Farbfeld ==> encoded is None,
{
    let image = image::DynamicImage::ImageRgba8(image::RgbaImage::from_raw(width, height, rgba)?);
    let mut buffer = std::io::Cursor::new(Vec::new());
    image.write_to(&mut buffer, encoder).ok()?;
    Some(buffer.into_inner())
}

impl Raster {
    #[verifier::type_invariant]
    spec fn well_formed(self) -> bool {
        self.rgba@.len() == 4 * self.width * self.height
    }

    /// Width and height, in pixels.
    pub closed spec fn size(self) -> (u32, u32) {
        (self.width, self.height)
    }

    /// The bytes of the pixels.
    pub closed spec fn pixels(self) -> Seq<u8> {
        self.rgba@
    }

    /// Takes a raster whose buffer has the length that its size asks for.
    pub fn new(width: u32, height: u32, rgba: Vec<u8>) -> (raster: Option<Raster>)
        ensures
            raster is Some <==> rgba@.len() == 4 * width * height,
            raster matches Some(r) ==> r.size() == (width, height) && r.pixels() == rgba@,
    {
        assert(width * height <= 0xFFFF_FFFF * 0xFFFF_FFFF) by (nonlinear_arith)
            requires
                width <= 0xFFFF_FFFF,
                height <= 0xFFFF_FFFF,
        ;
        assert(4 * width * height == 4 * (width * height)) by (nonlinear_arith);
        let needed: u128 = 4 * ((width as u128) * (height as u128));
        if rgba.len() as u128 == needed {
            Some(Raster { width, height, rgba })
        } else {
            None
        }
    }

    /// Encodes the raster: the result is what the format's encoder gives for
    /// this raster. Whether an encoder takes an image is the encoder's to
    /// say: there may be no result, and there is none where the format's
    /// encoder takes no eight-bit colour. Of AVIF and TIFF no more is said
    /// than that: their bytes follow the machine as well as the raster.
    pub fn encode(self, format: OutputFormat) -> (encoded: Option<Vec<u8>>)
        ensures
            format.encodes_alike_everywhere() ==> encoded_view(encoded) == encoded_image(
                self.size().0,
                self.size().1,
                self.pixels(),
                format.encoder(),
            ),
            !format.takes_eight_bit_colour() ==> encoded is None,
    {
        proof {
            use_type_invariant(&self);
        }
        write_rgba(self.width, self.height, self.rgba, format.as_image_format())
    }
}

/// The image of one page, ready to be stored under `name`.
#[derive(Debug, PartialEq, Eq)]
pub struct RenderedImage {
    pub name: String,
    pub bytes: Vec<u8>,
}

impl View for RenderedImage {
    type V = (Seq<char>, Seq<u8>);

    open spec fn view(&self) -> (Seq<char>, Seq<u8>) {
        (self.name@, self.bytes@)
    }
}

/// Names and contents of a list of images.
pub open spec fn image_views(images: Seq<RenderedImage>) -> Seq<(Seq<char>, Seq<u8>)> {
    images.map_values(|image: RenderedImage| image@)
}

/// The content of an encoded page, where there is one.
pub open spec fn encoded_view(encoded: Option<Vec<u8>>) -> Option<Seq<u8>> {
    match encoded {
        None => None,
        Some(bytes) => Some(bytes@),
    }
}

/// The images that a rendering has produced after `attempts`, one attempt for
/// each of the first pages of `pages`, in their order: an attempt that gave
/// bytes left an image under the page's object key, one that gave none left
/// nothing.
pub open spec fn produced(
    fingerprint: Seq<char>,
    format: OutputFormat,
    pages: Seq<usize>,
    attempts: Seq<Option<Seq<u8>>>,
) -> Seq<(Seq<char>, Seq<u8>)>
    decreases attempts.len(),
{
    if attempts.len() == 0 {
        Seq::empty()
    } else {
        let before = produced(fingerprint, format, pages, attempts.drop_last());
        match attempts.last() {
            None => before,
            Some(bytes) => before.push(
                (object_key_text(fingerprint, pages[attempts.len() - 1] as nat, format), bytes),
            ),
        }
    }
}

/// The rendering of one document, page by page.
pub struct RenderJob {
    fingerprint: String,
    format: OutputFormat,
    scale: Option<Scale>,
    pages: Vec<usize>,
    next: usize,
    images: Vec<RenderedImage>,
    attempts: Ghost<Seq<Option<Seq<u8>>>>,
}

impl RenderJob {
    #[verifier::type_invariant]
    spec fn well_formed(self) -> bool {
        &&& self.next == self.attempts@.len()
        &&& self.next <= self.pages@.len()
        &&& image_views(self.images@) == produced(
            self.fingerprint@,
            self.format,
            self.pages@,
            self.attempts@,
        )
    }

    /// The fingerprint of the document.
    pub closed spec fn fingerprint(self) -> Seq<char> {
        self.fingerprint@
    }

    /// The format that the pages are encoded to.
    pub closed spec fn format(self) -> OutputFormat {
        self.format
    }

    /// The scale factor that the pages are drawn with.
    pub closed spec fn factor(self) -> Option<Scale> {
        self.scale
    }

    /// The pages to render, in the order in which they are rendered.
    pub closed spec fn planned(self) -> Seq<usize> {
        self.pages@
    }

    /// What the attempts made so far gave, one entry for each.
    pub closed spec fn attempted(self) -> Seq<Option<Seq<u8>>> {
        self.attempts@
    }

    /// The images kept so far.
    pub closed spec fn images(self) -> Seq<(Seq<char>, Seq<u8>)> {
        image_views(self.images@)
    }

    /// Plans the rendering of a document that was loaded and has `total_pages`
    /// pages. A selection that names a page the document lacks is refused;
    /// otherwise the pages selected, or all pages, are planned in ascending
    /// order.
    pub fn plan(content: &[u8], parameters: RenderParameters, total_pages: usize) -> (r: Result<
        RenderJob,
        AppError,
    >)
        ensures
            r is Ok <==> (parameters.pages matches Some(selection) ==> forall|p: nat|
                selection@.contains(p) ==> p < total_pages),
            r matches Err(e) ==> parameters.pages matches Some(selection) && exists|last: nat|
                is_greatest(selection@, last) && e@ == Failure::InvalidPageRange(
                    out_of_range_text(last + 1, total_pages as nat),
                ),
            r matches Ok(job) ==> {
                &&& job.fingerprint() == fingerprint_text(content@)
                &&& job.format() == parameters.format
                &&& job.factor() == parameters.scale
                &&& lists(
                    job.planned(),
                    page_order(selected_set(parameters.pages), total_pages as nat),
                )
                &&& job.attempted() == Seq::<Option<Seq<u8>>>::empty()
                &&& job.images() == Seq::<(Seq<char>, Seq<u8>)>::empty()
            },
    {
        match &parameters.pages {
            None => {},
            Some(selection) => match selection.validate(total_pages) {
                Ok(()) => {},
                Err(e) => {
                    return Err(e);
                },
            },
        }
        let fingerprint = content_fingerprint(content);
        let pages = pages_in_order(&parameters.pages, total_pages);
        let images: Vec<RenderedImage> = Vec::new();
        assert(image_views(images@) =~= Seq::empty());
        Ok(
            RenderJob {
                fingerprint,
                format: parameters.format,
                scale: parameters.scale,
                pages,
                next: 0,
                images,
                attempts: Ghost(Seq::empty()),
            },
        )
    }

    /// The scale factor to draw pages with.
    pub fn scale(&self) -> (scale: Option<Scale>)
        ensures
            scale == self.factor(),
    {
        self.scale
    }

    /// The page to draw next, where one is left.
    pub fn next_page(&self) -> (page: Option<usize>)
        ensures
            self.attempted().len() <= self.planned().len(),
            page == if self.attempted().len() < self.planned().len() {
                Some(self.planned()[self.attempted().len() as int])
            } else {
                None
            },
            self.images() == produced(
                self.fingerprint(),
                self.format(),
                self.planned(),
                self.attempted(),
            ),
    {
        proof {
            use_type_invariant(self);
        }
        if self.next < self.pages.len() {
            Some(self.pages[self.next])
        } else {
            None
        }
    }

    /// Takes what encoding the page drawn gave, or that drawing or encoding
    /// failed: the image is kept under the page's object key, a failure is
    /// passed over. Either way the page is done with.
    pub fn page_encoded(self, encoded: Option<Vec<u8>>) -> (next: RenderJob)
        requires
            self.attempted().len() < self.planned().len(),
        ensures
            next.attempted() == self.attempted().push(encoded_view(encoded)),
            next.planned() == self.planned(),
            next.fingerprint() == self.fingerprint(),
            next.format() == self.format(),
            next.factor() == self.factor(),
            next.images() == produced(
                next.fingerprint(),
                next.format(),
                next.planned(),
                next.attempted(),
            ),
    {
        proof {
            use_type_invariant(&self);
        }
        let RenderJob { fingerprint, format, scale, pages, next, images, attempts } = self;
        let mut images = images;
        assert(next < pages.len());
        let ghost kept = images@;
        let ghost after = attempts@.push(encoded_view(encoded));
        assert(after.drop_last() =~= attempts@);
        match encoded {
            None => {},
            Some(bytes) => {
                let name = object_key(fingerprint.as_str(), pages[next], format);
                let ghost named = (name@, bytes@);
                images.push(RenderedImage { name, bytes });
                assert(image_views(images@) =~= image_views(kept).push(named));
            },
        }
        RenderJob {
            fingerprint,
            format,
            scale,
            pages,
            next: next + 1,
            images,
            attempts: Ghost(after),
        }
    }

    /// Takes the page as it was drawn, or that it could not be drawn, and
    /// encodes it. A page that could not be drawn or encoded leaves no image;
    /// one that was drawn leaves what the format's encoder gives for it.
    pub fn page_rendered(self, raster: Option<Raster>) -> (next: RenderJob)
        requires
            self.attempted().len() < self.planned().len(),
        ensures
            next.attempted().len() == self.attempted().len() + 1,
            next.attempted().drop_last() == self.attempted(),
            raster is None ==> next.attempted().last() is None,
            !self.format().takes_eight_bit_colour() ==> next.attempted().last() is None,
            raster matches Some(page) ==> (self.format().encodes_alike_everywhere()
                ==> next.attempted().last() == encoded_image(
                page.size().0,
                page.size().1,
                page.pixels(),
                self.format().encoder(),
            )),
            next.planned() == self.planned(),
            next.fingerprint() == self.fingerprint(),
            next.format() == self.format(),
            next.factor() == self.factor(),
            next.images() == produced(
                next.fingerprint(),
                next.format(),
                next.planned(),
                next.attempted(),
            ),
    {
        let encoded = match raster {
            None => None,
            Some(page) => page.encode(self.format),
        };
        let next = self.page_encoded(encoded);
        assert(next.attempted().drop_last() =~= self.attempted());
        next
    }

    /// Hands out the images, once every page planned has been attempted.
    pub fn finish(self) -> (images: Vec<RenderedImage>)
        requires
            self.attempted().len() == self.planned().len(),
        ensures
            image_views(images@) == produced(
                self.fingerprint(),
                self.format(),
                self.planned(),
                self.attempted(),
            ),
    {
        proof {
            use_type_invariant(&self);
        }
        self.images
    }
}

/// Whether `attempt` is what becomes of a page that was drawn as `raster`, or
/// not drawn, when it is encoded to `format`.
pub open spec fn encoding_of(
    raster: Option<Raster>,
    format: OutputFormat,
    attempt: Option<Seq<u8>>,
) -> bool {
    &&& raster is None ==> attempt is None
    &&& !format.takes_eight_bit_colour() ==> attempt is None
    &&& raster matches Some(page) ==> (format.encodes_alike_everywhere() ==> attempt
        == encoded_image(
        page.size().0,
        page.size().1,
        page.pixels(),
        format.encoder(),
    ))
}

/// Whether `attempt` is what becomes of `page` when `draw` draws it and it is
/// encoded to `format`.
pub open spec fn rendering_of<F: Fn(usize) -> Option<Raster>>(
    draw: F,
    page: usize,
    format: OutputFormat,
    attempt: Option<Seq<u8>>,
) -> bool {
    exists|raster: Option<Raster>|
        call_ensures(draw, (page,), raster) && encoding_of(raster, format, attempt)
}

/// Renders a document that was loaded and has `total_pages` pages. A
/// selection that names a page the document lacks is refused. Otherwise
/// `draw` is asked for each page planned, in ascending order and once, and
/// the images of the pages that could be drawn and encoded are handed out in
/// that order, each under its object key.
pub fn render_document<F: Fn(usize) -> Option<Raster>>(
    content: &[u8],
    parameters: RenderParameters,
    total_pages: usize,
    draw: F,
) -> (r: Result<Vec<RenderedImage>, AppError>)
    requires
        forall|page: usize| page < total_pages ==> call_requires(draw, (page,)),
    ensures
        r is Ok <==> (parameters.pages matches Some(selection) ==> forall|p: nat|
            selection@.contains(p) ==> p < total_pages),
        r matches Err(e) ==> parameters.pages matches Some(selection) && exists|last: nat|
            is_greatest(selection@, last) && e@ == Failure::InvalidPageRange(
                out_of_range_text(last + 1, total_pages as nat),
            ),
        r matches Ok(images) ==> exists|pages: Seq<usize>, attempts: Seq<Option<Seq<u8>>>|
            {
                &&& lists(pages, page_order(selected_set(parameters.pages), total_pages as nat))
                &&& attempts.len() == pages.len()
                &&& forall|i: int|
                    0 <= i < pages.len() ==> rendering_of(
                        draw,
                        pages[i],
                        parameters.format,
                        #[trigger] attempts[i],
                    )
                &&& image_views(images@) == produced(
                    fingerprint_text(content@),
                    parameters.format,
                    pages,
                    attempts,
                )
            },
{
    let ghost format = parameters.format;
    let ghost order = page_order(selected_set(parameters.pages), total_pages as nat);
    let mut job = match RenderJob::plan(content, parameters, total_pages) {
        Ok(job) => job,
        Err(e) => {
            return Err(e);
        },
    };
    let ghost pages = job.planned();
    proof {
        lemma_order_ascends(selected_set(parameters.pages), total_pages as nat);
    }
    loop
        invariant
            forall|page: usize| page < total_pages ==> call_requires(draw, (page,)),
            job.planned() == pages,
            job.format() == format,
            job.fingerprint() == fingerprint_text(content@),
            lists(pages, order),
            forall|i: int| 0 <= i < order.len() ==> (#[trigger] order[i]) < total_pages,
            job.attempted().len() <= pages.len(),
            forall|i: int|
                0 <= i < job.attempted().len() ==> rendering_of(
                    draw,
                    pages[i],
                    format,
                    #[trigger] job.attempted()[i],
                ),
        ensures
            job.attempted().len() == pages.len(),
        decreases pages.len() - job.attempted().len(),
    {
        let page = match job.next_page() {
            None => {
                break ;
            },
            Some(page) => page,
        };
        let ghost at = job.attempted().len() as int;
        let ghost before = job.attempted();
        assert(order[at] < total_pages);
        let raster = draw(page);
        let ghost drawn = raster;
        job = job.page_rendered(raster);
        proof {
            let after = job.attempted();
            assert(after.drop_last() == before);
            assert(encoding_of(drawn, format, after[at]));
            assert(rendering_of(draw, pages[at], format, after[at]));
            assert forall|i: int| 0 <= i < after.len() implies rendering_of(
                draw,
                pages[i],
                format,
                #[trigger] after[i],
            ) by {
                if i < at {
                    assert(after[i] == before[i]);
                }
            }
        }
    }
    let ghost attempts = job.attempted();
    let images = job.finish();
    assert(image_views(images@) == produced(fingerprint_text(content@), format, pages, attempts));
    Ok(images)
}

} // verus!
