//! Files that are picked as attachments.
use vstd::prelude::*;

use crate::model;
use crate::model::{DraftAttachment, IpcError, IpcErrorKind};

verus! {

/// The media type that `mime_guess` gives for a file extension, or
/// `application/octet-stream` where it knows none.
pub uninterp spec fn media_type(extension: Seq<char>) -> Seq<char>;

/// `mime_guess::from_ext` with `first_or_octet_stream`: the type is a function
/// of the extension, and without an extension it is the general one.
#[verifier::external_body]
fn media_type_of(extension: &str) -> (r: String)
    ensures
        r@ == media_type(extension@),
        extension@.len() == 0 ==> r@ == "application/octet-stream"@,
{
    mime_guess::from_ext(extension).first_or_octet_stream().to_string()
}

/// A file that was picked. The path is none where it is no text; a file
/// without a name has none, and one without an extension an empty one.
#[derive(Debug, PartialEq, Eq)]
pub struct PickedFile {
    pub path: Option<String>,
    pub name: Option<String>,
    pub extension: String,
    pub size: Result<u64, String>,
}

/// The name under which a file is attached: its own, or its path.
pub open spec fn attached_name(path: Seq<char>, name: Option<Seq<char>>) -> Seq<char> {
    match name {
        Some(n) => n,
        None => path,
    }
}

/// `a` attaches the picked file `f`, whose media type is `media`.
pub open spec fn attaches(a: DraftAttachment, f: PickedFile, media: Seq<char>) -> bool {
    &&& f.path is Some
    &&& a.path@ == f.path->0@
    &&& a.filename@ == attached_name(f.path->0@, model::opt_text(f.name))
    &&& a.mime_type@ == media
    &&& f.size == Ok::<u64, String>(a.size_bytes)
    &&& !a.inline
}

/// The files that can be attached: those whose path is a text.
pub open spec fn with_path(files: Seq<PickedFile>) -> Seq<PickedFile>
    decreases files.len(),
{
    if files.len() == 0 {
        Seq::empty()
    } else if files.last().path is Some {
        with_path(files.drop_last()).push(files.last())
    } else {
        with_path(files.drop_last())
    }
}

/// The first file that can be attached but whose size cannot be told.
pub open spec fn first_unsized(files: Seq<PickedFile>) -> Option<PickedFile>
    decreases files.len(),
{
    if files.len() == 0 {
        None
    } else {
        match first_unsized(files.drop_last()) {
            Some(f) => Some(f),
            None => if files.last().path is Some && files.last().size is Err {
                Some(files.last())
            } else {
                None
            },
        }
    }
}

/// The attachment for a picked file of the given media type.
pub fn attachment_for(file: &PickedFile, media: String) -> (r: Result<
    Option<DraftAttachment>,
    IpcError,
>)
    ensures
        match r {
            Ok(Some(a)) => attaches(a, *file, media@),
            Ok(None) => file.path is None,
            Err(e) => {
                &&& file.path is Some
                &&& file.size is Err
                &&& e.kind == IpcErrorKind::Internal
                &&& e.message@ == "compose_pick_attachments: stat "@ + attached_name(
                    file.path->0@,
                    model::opt_text(file.name),
                ) + ": "@ + file.size->Err_0@
            },
        },
{
    let path = match &file.path {
        Some(p) => p.clone(),
        None => return Ok(None),
    };
    let filename = match &file.name {
        Some(n) => n.clone(),
        None => path.clone(),
    };
    match &file.size {
        Ok(size) => Ok(
            Some(
                DraftAttachment {
                    path,
                    filename,
                    mime_type: media,
                    size_bytes: *size,
                    inline: false,
                },
            ),
        ),
        Err(e) => {
            let mut message = "compose_pick_attachments: stat ".to_owned();
            message.append(filename.as_str());
            message.append(": ");
            message.append(e.as_str());
            Err(IpcError { kind: IpcErrorKind::Internal, message })
        },
    }
}

/// The attachments for the files that were picked: none where the user picked
/// none. Files whose path is no text are left out; a file whose size cannot be
/// told fails them all.
pub fn compose_pick_attachments(files: &Vec<PickedFile>) -> (r: Result<
    Vec<DraftAttachment>,
    IpcError,
>)
    ensures
        match r {
            Ok(v) => {
                &&& first_unsized(files@) is None
                &&& v@.len() == with_path(files@).len()
                &&& forall|i: int|
                    0 <= i < v@.len() ==> attaches(
                        #[trigger] v@[i],
                        with_path(files@)[i],
                        media_type(with_path(files@)[i].extension@),
                    )
            },
            Err(e) => {
                let f = first_unsized(files@);
                &&& f is Some
                &&& e.kind == IpcErrorKind::Internal
                &&& e.message@ == "compose_pick_attachments: stat "@ + attached_name(
                    f->0.path->0@,
                    model::opt_text(f->0.name),
                ) + ": "@ + f->0.size->Err_0@
            },
        },
{
    let mut v: Vec<DraftAttachment> = Vec::new();
    let mut i: usize = 0;
    while i < files.len()
        invariant
            i <= files@.len(),
            first_unsized(files@.take(i as int)) is None,
            v@.len() == with_path(files@.take(i as int)).len(),
            forall|j: int|
                0 <= j < v@.len() ==> attaches(
                    #[trigger] v@[j],
                    with_path(files@.take(i as int))[j],
                    media_type(with_path(files@.take(i as int))[j].extension@),
                ),
        decreases files@.len() - i,
    {
        let f = &files[i];
        assert(files@.take(i + 1).drop_last() =~= files@.take(i as int));
        assert(files@.take(i + 1).last() == *f);
        let media = media_type_of(f.extension.as_str());
        match attachment_for(f, media) {
            Ok(Some(a)) => {
                v.push(a);
            },
            Ok(None) => {},
            Err(e) => {
                proof {
                    lemma_first_unsized_stays(files@, i + 1);
                }
                return Err(e);
            },
        }
        i = i + 1;
    }
    assert(files@.take(files@.len() as int) =~= files@);
    Ok(v)
}

/// What fails first among some files fails first among all.
proof fn lemma_first_unsized_stays(files: Seq<PickedFile>, n: int)
    requires
        0 <= n <= files.len(),
        first_unsized(files.take(n)) is Some,
    ensures
        first_unsized(files) == first_unsized(files.take(n)),
    decreases files.len() - n,
{
    if n < files.len() {
        assert(files.take(n + 1).drop_last() =~= files.take(n));
        lemma_first_unsized_stays(files, n + 1);
    } else {
        assert(files.take(n) =~= files);
    }
}

/// Every picked file that has a path is attached, in the order of the picks.
pub proof fn law_every_pick_is_attached(files: Seq<PickedFile>)
    ensures
        with_path(files) == files.filter(|f: PickedFile| f.path is Some),
    decreases files.len(),
{
    reveal(Seq::filter);
    if files.len() > 0 {
        law_every_pick_is_attached(files.drop_last());
    }
    assert(with_path(files) =~= files.filter(|f: PickedFile| f.path is Some));
}

/// The picks fail with the first file whose size cannot be read, and only where
/// there is one.
pub proof fn law_the_first_unreadable_pick_fails(files: Seq<PickedFile>)
    ensures
        match first_unsized(files) {
            Some(f) => exists|i: int|
                0 <= i < files.len() && #[trigger] files[i] == f && f.path is Some && f.size is Err
                    && forall|j: int|
                    0 <= j < i ==> (#[trigger] files[j]).path is None || files[j].size is Ok,
            None => forall|j: int|
                0 <= j < files.len() ==> (#[trigger] files[j]).path is None || files[j].size is Ok,
        },
    decreases files.len(),
{
    if files.len() > 0 {
        let init = files.drop_last();
        law_the_first_unreadable_pick_fails(init);
        assert(forall|j: int| 0 <= j < init.len() ==> #[trigger] init[j] == files[j]);
        assert(files[files.len() - 1] == files.last());
        if first_unsized(init) is Some {
            let i = choose|i: int|
                0 <= i < init.len() && #[trigger] init[i] == first_unsized(init)->0
                    && init[i].path is Some && init[i].size is Err && forall|j: int|
                    0 <= j < i ==> (#[trigger] init[j]).path is None || init[j].size is Ok;
            assert(files[i] == init[i]);
            assert forall|j: int| 0 <= j < i implies (#[trigger] files[j]).path is None
                || files[j].size is Ok by {
                assert(init[j] == files[j]);
            }
        } else {
            assert forall|j: int| 0 <= j < init.len() implies (#[trigger] files[j]).path is None
                || files[j].size is Ok by {
                assert(init[j] == files[j]);
            }
        }
    }
}

/// An attachment is named by its file, or by its path where the file has no
/// name.
pub proof fn law_attachments_are_named_by_their_file(path: Seq<char>, name: Seq<char>)
    ensures
        attached_name(path, Some(name)) == name,
        attached_name(path, None) == path,
{
}

/// An attachment is the file that was picked: its path, its name, its type and
/// its size, and it is attached, not shown inline.
pub proof fn law_attachments_are_the_picked_files(
    a: DraftAttachment,
    f: PickedFile,
    media: Seq<char>,
)
    requires
        attaches(a, f, media),
    ensures
        f.path is Some && a.path@ == f.path->0@,
        f.name is Some ==> a.filename@ == f.name->0@,
        f.name is None ==> a.filename@ == f.path->0@,
        a.mime_type@ == media,
        f.size is Ok && a.size_bytes == f.size->Ok_0,
        !a.inline,
{
}

} // verus!
