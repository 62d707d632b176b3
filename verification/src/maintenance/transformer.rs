//! The transformer ledger and the QR codes printed on every maintained
//! asset: the inspection link, its code, and who may inspect.
use vstd::prelude::*;
use crate::maintenance::model::{factory_name, factory_name_spec, MAINTENANCE_INSPECT_CODE};
use crate::records::Factory;
use crate::text::{decimal, push_decimal, str_eq, owned};

verus! {

/// Site the inspection links point at when the page's own origin is unknown.
pub const DEFAULT_ORIGIN: &'static str = "https://yz.furong.org";

/// `<origin>/maintenance/inspect/<kind>/<asset id>`. The code is only a way
/// in, not a permission: it holds the asset kind and id and no secret.
pub open spec fn inspect_url_text(origin: Seq<char>, kind: Seq<char>, asset_id: u64) -> Seq<char> {
    origin + "/maintenance/inspect/"@ + kind + seq!['/'] + decimal(asset_id as nat)
}

/// Inspection link of an asset on the given site.
pub fn inspect_url_at(origin: &str, kind: &str, asset_id: u64) -> (r: String)
    ensures
        r@ == inspect_url_text(origin@, kind@, asset_id),
{
    let mut out = owned(origin);
    out.append("/maintenance/inspect/");
    out.append(kind);
    proof {
        reveal_strlit("/");
    }
    out.append("/");
    push_decimal(&mut out, asset_id);
    proof {
        assert(out@ =~= inspect_url_text(origin@, kind@, asset_id));
    }
    out
}

/// Inspection link of an asset on the default site.
pub fn inspect_url(kind: &str, asset_id: u64) -> (r: String)
    ensures
        r@ == inspect_url_text(DEFAULT_ORIGIN@, kind@, asset_id),
{
    inspect_url_at(DEFAULT_ORIGIN, kind, asset_id)
}

/// The SVG that the `qrcode` crate renders for a text at medium error
/// correction, at least 220 pixels wide, in near-black on white; `None`
/// when the text does not fit a QR code.
pub uninterp spec fn qr_svg_of(text: Seq<char>) -> Option<Seq<char>>;

/// `qrcode::QrCode::new` on the text's bytes, rendered with
/// `render::<svg::Color>()`, `min_dimensions(220, 220)`,
/// `dark_color("#111111")`, `light_color("#ffffff")`, `build()`. Claimed:
/// the result is `qr_svg_of` of the text, and an SVG document starts with
/// the XML declaration the crate writes. Not claimed: which texts fit.
#[verifier::external_body]
fn render_qr_svg(text: &str) -> (r: Option<String>)
    ensures
        match r {
            Some(svg) => qr_svg_of(text@) == Some(svg@) && crate::text::starts_with(
                svg@,
                "<?xml version=\"1.0\" standalone=\"yes\"?>"@,
            ),
            None => qr_svg_of(text@) is None,
        },
{
    match qrcode::QrCode::new(text.as_bytes()) {
        Ok(code) => Some(
            code.render::<qrcode::render::svg::Color>()
                .min_dimensions(220, 220)
                .dark_color(qrcode::render::svg::Color("#111111"))
                .light_color(qrcode::render::svg::Color("#ffffff"))
                .build(),
        ),
        Err(_) => None,
    }
}

/// The QR code of an inspection link, as SVG; the background stays white
/// whatever the page theme, so scanners read it.
pub fn qr_svg(url: &str) -> (r: Option<String>)
    ensures
        match r {
            Some(svg) => qr_svg_of(url@) == Some(svg@),
            None => qr_svg_of(url@) is None,
        },
{
    render_qr_svg(url)
}

/// The content of a printed label: code, name, location and link, to be
/// cut out and stuck on the asset.
#[derive(Clone, Debug)]
pub struct QrLabel {
    pub svg: Option<String>,
    pub title: String,
    pub meta: String,
    pub url: String,
}

/// The label for an asset: its QR code, its name, `<code> · <location>`
/// and the link itself.
pub fn qr_print_label(title: &str, code: &str, location: &str, url: &str) -> (r: QrLabel)
    ensures
        match r.svg {
            Some(svg) => qr_svg_of(url@) == Some(svg@),
            None => qr_svg_of(url@) is None,
        },
        r.title@ == title@,
        r.meta@ == code@ + " · "@ + location@,
        r.url@ == url@,
{
    let mut meta = owned(code);
    meta.append(" · ");
    meta.append(location);
    QrLabel { svg: qr_svg(url), title: owned(title), meta, url: owned(url) }
}

/// Whether the account may submit an inspection: a system super user, or
/// one holding the inspection permission code. The server decides for real.
pub fn can_submit_inspection(is_super: bool, permission_codes: &[String]) -> (r: bool)
    ensures
        r == (is_super || exists|i: int| 0 <= i < permission_codes@.len() && permission_codes@[i]@ == "maintenance:inspect"@),
{
    if is_super {
        return true;
    }
    let mut i: usize = 0;
    while i < permission_codes.len()
        invariant
            0 <= i <= permission_codes@.len(),
            forall|k: int| 0 <= k < i ==> permission_codes@[k]@ != "maintenance:inspect"@,
        decreases permission_codes@.len() - i,
    {
        if str_eq(permission_codes[i].as_str(), MAINTENANCE_INSPECT_CODE) {
            return true;
        }
        i = i + 1;
    }
    false
}

/// Building of a transformer: 0 is the park's public area.
pub fn factory_label(factories: &[Factory], factory_id: u64) -> (r: String)
    ensures
        r@ == (if factory_id == 0 { "园区公共区域"@ } else { factory_name_spec(factories@, Some(factory_id)) }),
{
    if factory_id == 0 {
        return String::from_str("园区公共区域");
    }
    factory_name(factories, Some(factory_id))
}

} // verus!
