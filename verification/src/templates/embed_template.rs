//! The page that embeds a stored file, with the Open Graph description that
//! link previews read.
use vstd::prelude::*;
use vstd::string::*;

use crate::extensions::{spec_with_ext, StringExtraTrait};
use crate::media::MimeType;
use crate::metadata::Metadata;
use crate::opengraph::{Audio, Content, Image, Video};

verus! {

/// The values the embedding page of a stored file is filled in with.
pub struct EmbedTemplate {
    pub hash: String,
    pub meta: Metadata,
    pub title: String,
    pub description: String,
    pub opengraph_type: String,
    pub url: String,
    pub icon_url: String,
    pub image: Image,
    pub content: Content,
}

/// The Open Graph type of a file whose media type has top-level type `top`.
pub open spec fn spec_opengraph_type(top: Seq<char>) -> Seq<char> {
    if top == "audio"@ {
        "music.song"@
    } else if top == "video"@ {
        "video.other"@
    } else {
        "website"@
    }
}

/// The address of the preview image: an icon for sound and video, the file
/// itself for an image, and a question-mark icon otherwise.
pub open spec fn spec_image_url(top: Seq<char>, url: Seq<char>) -> Seq<char> {
    if top == "audio"@ {
        "/static/icons/audio_icon.png"@
    } else if top == "video"@ {
        "/static/icons/video_icon.png"@
    } else if top == "image"@ {
        url
    } else {
        "/static/icons/question_icon.png"@
    }
}

/// The page icon: the sound or video icon, or none.
pub open spec fn spec_icon_url(top: Seq<char>) -> Seq<char> {
    if top == "audio"@ {
        "/static/icons/audio_icon.png"@
    } else if top == "video"@ {
        "/static/icons/video_icon.png"@
    } else {
        ""@
    }
}

/// Whether `content` describes the file at `url` of media type `mime`
/// (text, top-level type) named `name`: a song, a video, an image, or
/// nothing known.
pub open spec fn spec_content(
    content: Content,
    url: Seq<char>,
    mime: (Seq<char>, Seq<char>),
    name: Seq<char>,
) -> bool {
    if mime.1 == "audio"@ {
        content matches Content::Audio(a) && a.url@ == url && a.mime_type@ == mime.0
            && a.duration_secs == 100 && a.album is None && a.musician@ == ""@
    } else if mime.1 == "video"@ {
        content matches Content::Video(v) && v.url@ == url && v.mime_type@ == mime.0
    } else if mime.1 == "image"@ {
        content matches Content::Image(i) && i.url@ == url && i.mime_type@ == mime.0 && i.alt@
            == name
    } else {
        content is Unknown
    }
}

impl EmbedTemplate {
    /// The embedding page of the file named `hash`, described by `meta`,
    /// whose raw content is at `url` and whose media type is `mime_type`.
    pub fn from_file(url: String, hash: String, meta: Metadata, mime_type: MimeType) -> (res: Self)
        ensures
            res.hash@ == hash@,
            res.meta == meta,
            res.url@ == url@,
            res.title@ == spec_with_ext(meta.name@, meta.ext@),
            res.description@ == spec_with_ext(meta.name@, meta.ext@),
            res.opengraph_type@ == spec_opengraph_type(mime_type.top@),
            res.icon_url@ == spec_icon_url(mime_type.top@),
            res.image.url@ == spec_image_url(mime_type.top@, url@),
            res.image.alt@ == meta.name@,
            res.image.mime_type@ == mime_type.text@,
            spec_content(res.content, url@, mime_type.spec_pair(), meta.name@),
    {
        proof {
            reveal_strlit("");
        }
        let filename = meta.name.with_ext(meta.ext.as_str());
        let description = meta.name.with_ext(meta.ext.as_str());
        let placeholder = Image::new("/static/icons/question_icon.png", meta.name.as_str(), &mime_type);
        let mut opengraph_type = String::from_str("website");
        let mut icon_url = String::new();
        let mut image = placeholder;
        let mut content = Content::Unknown;
        if mime_type.top == String::from_str("audio") {
            opengraph_type = String::from_str("music.song");
            image = Image::new("/static/icons/audio_icon.png", meta.name.as_str(), &mime_type);
            icon_url = String::from_str("/static/icons/audio_icon.png");
            content = Content::Audio(Audio {
                url: url.clone(),
                album: None,
                duration_secs: 100,
                musician: String::new(),
                mime_type: mime_type.text.clone(),
            });
            assert(content matches Content::Audio(a) && a.musician@ == ""@);
        } else if mime_type.top == String::from_str("video") {
            opengraph_type = String::from_str("video.other");
            image = Image::new("/static/icons/video_icon.png", meta.name.as_str(), &mime_type);
            icon_url = String::from_str("/static/icons/video_icon.png");
            content = Content::Video(Video { url: url.clone(), mime_type: mime_type.text.clone() });
        } else if mime_type.top == String::from_str("image") {
            image = Image::new(url.as_str(), meta.name.as_str(), &mime_type);
            content = Content::Image(Image::new(url.as_str(), meta.name.as_str(), &mime_type));
        }
        EmbedTemplate {
            hash,
            meta,
            url,
            title: filename,
            description,
            opengraph_type,
            icon_url,
            image,
            content,
        }
    }

    /// The name a download of the file is offered under: `name [hash]` with
    /// the file's extension.
    pub fn download_name(&self) -> (res: String)
        ensures
            res@ == spec_with_ext(self.meta.name@ + " ["@ + self.hash@ + "]"@, self.meta.ext@),
    {
        let mut base = self.meta.name.clone();
        base.append(" [");
        base.append(self.hash.as_str());
        base.append("]");
        base.with_ext(self.meta.ext.as_str())
    }
}

/// The preview image of a sound or video file is its page icon (the video
/// icon for a video), an image is its own preview, and the question-mark
/// icon stands only for a file that is neither sound, video nor image.
pub proof fn lemma_preview_image(top: Seq<char>, url: Seq<char>)
    ensures
        (top == "audio"@ || top == "video"@) ==> spec_image_url(top, url) == spec_icon_url(top)
            && spec_icon_url(top) != ""@,
        top == "video"@ ==> spec_image_url(top, url) == "/static/icons/video_icon.png"@,
        top == "image"@ ==> spec_image_url(top, url) == url,
        spec_image_url(top, url) == "/static/icons/question_icon.png"@ && url
            != "/static/icons/question_icon.png"@ ==> top != "audio"@ && top != "video"@ && top
            != "image"@,
{
    reveal_strlit("audio");
    reveal_strlit("video");
    reveal_strlit("image");
    reveal_strlit("");
    reveal_strlit("/static/icons/audio_icon.png");
    reveal_strlit("/static/icons/video_icon.png");
    reveal_strlit("/static/icons/question_icon.png");
    assert("audio"@[0] != "video"@[0] && "audio"@[0] != "image"@[0] && "video"@[0] != "image"@[0]);
    assert("audio"@ != "video"@ && "audio"@ != "image"@ && "video"@ != "image"@);
    assert("/static/icons/audio_icon.png"@[14] != "/static/icons/question_icon.png"@[14]);
    assert("/static/icons/video_icon.png"@[14] != "/static/icons/question_icon.png"@[14]);
}

} // verus!
