use crate::codec::{decode, encode_png, png_encoding};
use crate::grid::{samples_of, GridModel, PixelGrid};
use crate::palette::palette_of;
use crate::remap::{quantize, remapped};
use vstd::prelude::*;

verus! {

/// The most bytes that one upload may hold.
pub const MAX_UPLOAD_BYTES: usize = 8_000_000;

/// The media type of the image that is sent back.
pub const PNG_MEDIA_TYPE: &'static str = "image/png";

/// Why a submission is turned away. Each is the client's fault.
#[derive(Clone, Copy, Debug, PartialEq, Eq, Structural)]
pub enum Rejection {
    /// A field came without a name.
    Unnamed,
    /// No field named "image" was sent.
    MissingImage,
    /// The last field named "image" did not decode.
    InvalidImage,
    /// No field named "palette" was sent.
    MissingPalette,
    /// The last field named "palette" did not decode.
    InvalidPalette,
}

impl Rejection {
    /// The plain-text reason given to the client.
    pub fn message(&self) -> (text: &'static str)
        ensures
            text@ == (match *self {
                Rejection::Unnamed => "need a name"@,
                Rejection::MissingImage => "need an image"@,
                Rejection::InvalidImage => "image is invalid"@,
                Rejection::MissingPalette => "need a palette"@,
                Rejection::InvalidPalette => "palette is invalid"@,
            }),
    {
        match *self {
            Rejection::Unnamed => "need a name",
            Rejection::MissingImage => "need an image",
            Rejection::InvalidImage => "image is invalid",
            Rejection::MissingPalette => "need a palette",
            Rejection::InvalidPalette => "palette is invalid",
        }
    }
}

/// What a field of a submission is for.
#[derive(Clone, Copy, Debug, PartialEq, Eq, Structural)]
pub enum Role {
    /// The image to remap, sent under the name "image".
    Target,
    /// The image whose colors are the palette, sent under the name "palette".
    Source,
    /// Any other name: the field plays no part.
    Other,
}

/// The role that goes with a field name.
pub open spec fn role_of(name: Seq<char>) -> Role {
    if name == "image"@ {
        Role::Target
    } else if name == "palette"@ {
        Role::Source
    } else {
        Role::Other
    }
}

/// Tells what a field is for. A field without a name is rejected.
pub fn classify(name: Option<&str>) -> (role: Result<Role, Rejection>)
    ensures
        role == (match name {
            Some(n) => Ok(role_of(n@)),
            None => Err(Rejection::Unnamed),
        }),
{
    match name {
        None => Err(Rejection::Unnamed),
        Some(n) => {
            let given = n.to_owned();
            if given == "image".to_owned() {
                Ok(Role::Target)
            } else if given == "palette".to_owned() {
                Ok(Role::Source)
            } else {
                Ok(Role::Other)
            }
        },
    }
}

/// One of the two images of a submission, as far as it has come in.
#[derive(Debug)]
pub enum Part {
    /// No field of this role was sent yet.
    Absent,
    /// The last field of this role did not decode.
    Broken,
    /// The last field of this role, decoded.
    Loaded(PixelGrid),
}

/// A part reduced to what the rules read: its state, and for a decoded image
/// its size and pixels.
pub enum PartModel {
    Absent,
    Broken,
    Loaded(GridModel),
}

impl View for Part {
    type V = PartModel;

    open spec fn view(&self) -> PartModel {
        match *self {
            Part::Absent => PartModel::Absent,
            Part::Broken => PartModel::Broken,
            Part::Loaded(g) => PartModel::Loaded(g@),
        }
    }
}

/// What a submission comes to. The image is looked at first, so a
/// submission that lacks both fields is told of the image.
pub open spec fn outcome(image: PartModel, palette: PartModel) -> Result<GridModel, Rejection> {
    match image {
        PartModel::Absent => Err(Rejection::MissingImage),
        PartModel::Broken => Err(Rejection::InvalidImage),
        PartModel::Loaded(target) => match palette {
            PartModel::Absent => Err(Rejection::MissingPalette),
            PartModel::Broken => Err(Rejection::InvalidPalette),
            PartModel::Loaded(source) => Ok(
                GridModel {
                    width: target.width,
                    height: target.height,
                    pixels: remapped(target.pixels, palette_of(source.pixels)),
                },
            ),
        },
    }
}

/// The fields of one upload, gathered as they arrive.
#[derive(Debug)]
pub struct Submission {
    pub image: Part,
    pub palette: Part,
}

impl Submission {
    /// A submission with no field yet.
    pub fn new() -> (s: Submission)
        ensures
            s.image@ == PartModel::Absent,
            s.palette@ == PartModel::Absent,
    {
        Submission { image: Part::Absent, palette: Part::Absent }
    }

    /// Takes in a decoding outcome for a role. A later field replaces an
    /// earlier one of the same role; a field of no role changes nothing.
    pub fn store(&mut self, role: Role, decoded: Option<PixelGrid>)
        ensures
            final(self).image@ == (if role == Role::Target {
                stored(decoded)
            } else {
                old(self).image@
            }),
            final(self).palette@ == (if role == Role::Source {
                stored(decoded)
            } else {
                old(self).palette@
            }),
    {
        let part = match decoded {
            Some(grid) => Part::Loaded(grid),
            None => Part::Broken,
        };
        match role {
            Role::Target => {
                self.image = part;
            },
            Role::Source => {
                self.palette = part;
            },
            Role::Other => {},
        }
    }

    /// Takes in one named field: its bytes are decoded and kept under the
    /// role that the name stands for. Whether they decode is the codec's to
    /// say; the part of that role is `Loaded` or `Broken` afterwards, and
    /// nothing else changes.
    pub fn record(&mut self, name: &str, data: &[u8])
        ensures
            role_of(name@) == Role::Target ==> !(final(self).image@ is Absent),
            role_of(name@) != Role::Target ==> final(self).image@ == old(self).image@,
            role_of(name@) == Role::Source ==> !(final(self).palette@ is Absent),
            role_of(name@) != Role::Source ==> final(self).palette@ == old(self).palette@,
    {
        match classify(Some(name)) {
            Ok(Role::Other) => {},
            Ok(role) => {
                let decoded = decode(data);
                self.store(role, decoded);
            },
            Err(_) => {},
        }
    }

    /// Closes the submission: the remapped image, or the reason why there is
    /// none.
    pub fn resolve(&self) -> (result: Result<PixelGrid, Rejection>)
        ensures
            outcome(self.image@, self.palette@) == (match result {
                Ok(out) => Ok(out@),
                Err(why) => Err(why),
            }),
    {
        match &self.image {
            Part::Absent => Err(Rejection::MissingImage),
            Part::Broken => Err(Rejection::InvalidImage),
            Part::Loaded(target) => match &self.palette {
                Part::Absent => Err(Rejection::MissingPalette),
                Part::Broken => Err(Rejection::InvalidPalette),
                Part::Loaded(source) => Ok(quantize(target, source)),
            },
        }
    }
}

/// What is sent back for a submission.
#[derive(Debug)]
pub enum Reply {
    /// The remapped image as a PNG file.
    Png(Vec<u8>),
    /// The submission was turned away, with a plain-text reason.
    Refused(Rejection),
    /// The remapped image could not be encoded; the codec's error says why.
    Failed(image::ImageError),
}

/// A reply reduced to plain values.
pub enum ReplyModel {
    Png(Seq<u8>),
    Refused(Rejection),
    Failed,
}

impl View for Reply {
    type V = ReplyModel;

    open spec fn view(&self) -> ReplyModel {
        match *self {
            Reply::Png(file) => ReplyModel::Png(file@),
            Reply::Refused(why) => ReplyModel::Refused(why),
            Reply::Failed(_) => ReplyModel::Failed,
        }
    }
}

/// The reply that an encoding outcome gives.
pub open spec fn delivered(file: Option<Seq<u8>>) -> ReplyModel {
    match file {
        Some(bytes) => ReplyModel::Png(bytes),
        None => ReplyModel::Failed,
    }
}

/// The reply to a submission with the given parts: the PNG file of the
/// remapped image, the rejection, or the encoder's complaint.
pub open spec fn reply_to(image: PartModel, palette: PartModel) -> ReplyModel {
    match outcome(image, palette) {
        Ok(out) => delivered(png_encoding(out.width, out.height, samples_of(out.pixels))),
        Err(why) => ReplyModel::Refused(why),
    }
}

impl Reply {
    /// The reply that carries an encoding outcome.
    pub fn deliver(file: Result<Vec<u8>, image::ImageError>) -> (reply: Reply)
        ensures
            reply@ == delivered(
                match file {
                    Ok(bytes) => Some(bytes@),
                    Err(_) => None,
                },
            ),
    {
        match file {
            Ok(bytes) => Reply::Png(bytes),
            Err(error) => Reply::Failed(error),
        }
    }

    /// The response status: 200 with the image, 400 for a submission turned
    /// away, 500 where encoding failed.
    pub fn status(&self) -> (code: u16)
        ensures
            code == (match self@ {
                ReplyModel::Png(_) => 200u16,
                ReplyModel::Refused(_) => 400u16,
                ReplyModel::Failed => 500u16,
            }),
    {
        match self {
            Reply::Png(_) => 200,
            Reply::Refused(_) => 400,
            Reply::Failed(_) => 500,
        }
    }
}

impl Submission {
    /// Closes the submission and encodes what it comes to.
    pub fn reply(&self) -> (reply: Reply)
        ensures
            reply@ == reply_to(self.image@, self.palette@),
    {
        match self.resolve() {
            Ok(out) => Reply::deliver(encode_png(&out)),
            Err(why) => Reply::Refused(why),
        }
    }
}

/// The part that a decoded grid, or the lack of one, is stored as.
pub open spec fn stored(decoded: Option<PixelGrid>) -> PartModel {
    match decoded {
        Some(g) => PartModel::Loaded(g@),
        None => PartModel::Broken,
    }
}

} // verus!
