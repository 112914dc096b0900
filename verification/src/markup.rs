use vstd::prelude::*;

verus! {

/// Why a link cannot be written.
#[derive(Clone, Copy, Debug, PartialEq, Eq, Structural)]
pub enum LinkError {
    /// No text was given for the link.
    NoText,
    /// No address was given for the link.
    NoHref,
}

impl LinkError {
    /// The complaint shown for the error.
    pub fn message(&self) -> (text: &'static str)
        ensures
            text@ == (match *self {
                LinkError::NoText => "need string text argument"@,
                LinkError::NoHref => "need string href argument"@,
            }),
    {
        match *self {
            LinkError::NoText => "need string text argument",
            LinkError::NoHref => "need string href argument",
        }
    }
}

/// The markup of a link: an anchor element around `text` that points at
/// `href`. Neither is quoted or escaped.
pub open spec fn anchor_markup(text: Seq<char>, href: Seq<char>) -> Seq<char> {
    "<a href="@ + href + ">"@ + text + "</a>"@
}

/// Writes a link for the page templates. The text is looked at first, so a
/// call that lacks both is told of the text.
pub fn anchor(text: Option<&str>, href: Option<&str>) -> (link: Result<String, LinkError>)
    ensures
        link matches Ok(markup) ==> (text matches Some(t) && href matches Some(h) && markup@
            == anchor_markup(t@, h@)),
        link matches Err(why) ==> why == (if text.is_none() {
            LinkError::NoText
        } else {
            LinkError::NoHref
        }),
        link.is_ok() <==> text.is_some() && href.is_some(),
{
    match text {
        None => Err(LinkError::NoText),
        Some(t) => match href {
            None => Err(LinkError::NoHref),
            Some(h) => {
                let mut markup = String::from_str("<a href=");
                markup.append(h);
                markup.append(">");
                markup.append(t);
                markup.append("</a>");
                Ok(markup)
            },
        },
    }
}

} // verus!
