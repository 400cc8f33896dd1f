//! The images of this project on an engine.

use crate::command::{bare, Command, CommandView};
use crate::errors::{Error, ErrorView};
use crate::text::{
    first_match, lemma_first_match_is, after_first, before_first, chars_of, concat3,
    join_strings, join_with, lemma_precedes_asymmetric, lemma_precedes_transitive,
    lemma_strs_push, lines, lines_of, precedes, push_str, split, split_at_first, split_on,
    str_eq, str_lt, str_starts_with, strip_prefix, strs, without_prefix,
};
use vstd::prelude::*;

verus! {

/// Where the images of this project are published.
pub const GHCR_IO: &'static str = "ghcr.io/cross-rs";

/// The name under which this project published its images before.
pub const RUST_EMBEDDED: &'static str = "rustembedded/cross:";

/// The same name with its registry.
pub const DOCKER_IO: &'static str = "docker.io/rustembedded/cross:";

/// What is asked when images are listed.
#[derive(Debug, Clone, PartialEq, Eq)]
pub struct ListImages {
    /// Whether the commands are traced.
    pub verbose: bool,
    /// The engine to use.
    pub engine: Option<String>,
}

/// What is asked when images are removed.
#[derive(Debug, Clone, PartialEq, Eq)]
pub struct RemoveImages {
    /// The targets whose images are removed; all images where none is
    /// named.
    pub targets: Vec<String>,
    /// Whether the commands are traced.
    pub verbose: bool,
    /// Whether images in use are removed too.
    pub force: bool,
    /// Whether images built on this machine are removed too.
    pub local: bool,
    /// Whether the images are removed, or the removal only shown.
    pub execute: bool,
    /// The engine to use.
    pub engine: Option<String>,
}

/// An image on an engine.
#[derive(Debug, Clone, PartialEq, Eq)]
pub struct Image {
    pub repository: String,
    pub tag: String,
    /// What the engine removes the image by.
    pub id: String,
}

/// The plain values of an `Image`.
pub ghost struct ImageView {
    pub repository: Seq<char>,
    pub tag: Seq<char>,
    pub id: Seq<char>,
}

impl View for Image {
    type V = ImageView;

    open spec fn view(&self) -> ImageView {
        ImageView { repository: self.repository@, tag: self.tag@, id: self.id@ }
    }
}

/// The views of a sequence of images.
pub open spec fn image_views(v: Seq<Image>) -> Seq<ImageView> {
    Seq::new(v.len(), |i: int| v[i]@)
}

impl Image {
    /// The image's name: repository and tag.
    pub fn name(&self) -> (name: String)
        ensures
            name@ == self.repository@ + ":"@ + self.tag@,
    {
        concat3(self.repository.as_str(), ":", self.tag.as_str())
    }
}

/// The image that a line of the form `repository:tag id` describes.
pub open spec fn image_of(line: Seq<char>) -> Option<ImageView> {
    match after_first(line, ':') {
        Some(rest) => match after_first(rest, ' ') {
            Some(id) => Some(
                ImageView { repository: before_first(line, ':'), tag: before_first(rest, ' '), id },
            ),
            None => None,
        },
        None => None,
    }
}

/// The image that a line of the form `repository:tag id` describes.
/// Nothing for a line of another form.
pub fn parse_image(image: &str) -> (made: Option<Image>)
    ensures
        made is Some <==> image_of(image@) is Some,
        made is Some ==> made->0@ == image_of(image@)->0,
{
    let (repository, rest) = split_at_first(image, ':');
    let rest = match rest {
        Some(rest) => rest,
        None => {
            return None;
        },
    };
    let (tag, id) = split_at_first(rest.as_str(), ' ');
    match id {
        Some(id) => Some(Image { repository, tag, id }),
        None => None,
    }
}

/// Whether a repository is one of this project: its name begins with one
/// of the names under which the project publishes or published.
pub fn is_cross_image(repository: &str) -> (yes: bool)
    ensures
        yes == (GHCR_IO@.is_prefix_of(repository@) || DOCKER_IO@.is_prefix_of(repository@)
            || RUST_EMBEDDED@.is_prefix_of(repository@)),
{
    str_starts_with(repository, GHCR_IO) || str_starts_with(repository, DOCKER_IO)
        || str_starts_with(repository, RUST_EMBEDDED)
}

/// Whether a tag marks an image that was built on this machine.
pub fn is_local_image(tag: &str) -> (yes: bool)
    ensures
        yes == "local"@.is_prefix_of(tag@),
{
    str_starts_with(tag, "local")
}

/// Whether an image is listed: it is one of this project and, unless
/// local images are wanted, not a local one.
pub open spec fn is_listed(image: ImageView, local: bool) -> bool {
    (GHCR_IO@.is_prefix_of(image.repository) || DOCKER_IO@.is_prefix_of(image.repository)
        || RUST_EMBEDDED@.is_prefix_of(image.repository)) && (local || !"local"@.is_prefix_of(
        image.tag,
    ))
}

/// Whether `a` stands before `b`: by repository, then by tag, then by id.
pub open spec fn image_precedes(a: ImageView, b: ImageView) -> bool {
    precedes(a.repository, b.repository) || (a.repository == b.repository && (precedes(
        a.tag,
        b.tag,
    ) || (a.tag == b.tag && precedes(a.id, b.id))))
}

/// Whether `a` stands before `b`.
pub fn image_lt(a: &Image, b: &Image) -> (yes: bool)
    ensures
        yes == image_precedes(a@, b@),
{
    if str_lt(a.repository.as_str(), b.repository.as_str()) {
        true
    } else if !str_eq(a.repository.as_str(), b.repository.as_str()) {
        false
    } else if str_lt(a.tag.as_str(), b.tag.as_str()) {
        true
    } else if !str_eq(a.tag.as_str(), b.tag.as_str()) {
        false
    } else {
        str_lt(a.id.as_str(), b.id.as_str())
    }
}

/// The order of images is transitive, and no image stands before itself.
pub proof fn lemma_image_order(a: ImageView, b: ImageView, c: ImageView)
    requires
        image_precedes(a, b),
    ensures
        !image_precedes(b, a),
        image_precedes(b, c) ==> image_precedes(a, c),
{
    if precedes(a.repository, b.repository) {
        lemma_precedes_asymmetric(a.repository, b.repository);
        if precedes(b.repository, c.repository) {
            lemma_precedes_transitive(a.repository, b.repository, c.repository);
        }
    } else if precedes(a.tag, b.tag) {
        lemma_precedes_asymmetric(a.tag, b.tag);
        if precedes(b.repository, a.repository) {
            lemma_precedes_asymmetric(b.repository, a.repository);
        }
        if precedes(b.tag, c.tag) {
            lemma_precedes_transitive(a.tag, b.tag, c.tag);
        }
    } else {
        lemma_precedes_asymmetric(a.id, b.id);
        if precedes(b.repository, a.repository) {
            lemma_precedes_asymmetric(b.repository, a.repository);
        }
        if precedes(b.tag, a.tag) {
            lemma_precedes_asymmetric(b.tag, a.tag);
        }
        if precedes(b.id, c.id) {
            lemma_precedes_transitive(a.id, b.id, c.id);
        }
    }
}

/// No image stands before an earlier one.
pub open spec fn images_ascend(s: Seq<ImageView>) -> bool {
    forall|i: int, j: int|
        0 <= i <= j < s.len() ==> !image_precedes(#[trigger] s[j], #[trigger] s[i])
}

/// The images that the lines describe and that are listed, in the order of
/// the lines.
pub open spec fn listed_images(all: Seq<Seq<char>>, local: bool) -> Seq<ImageView>
    decreases all.len(),
{
    if all.len() == 0 {
        Seq::empty()
    } else {
        let before = listed_images(all.drop_last(), local);
        match image_of(all.last()) {
            Some(image) => if is_listed(image, local) {
                before.push(image)
            } else {
                before
            },
            None => before,
        }
    }
}

/// Whether every line describes an image.
pub open spec fn all_images(all: Seq<Seq<char>>) -> bool {
    forall|i: int| 0 <= i < all.len() ==> image_of(#[trigger] all[i]) is Some
}

/// The predicate "describes no image".
pub open spec fn is_no_image() -> spec_fn(Seq<char>) -> bool {
    |line: Seq<char>| image_of(line) is None
}

/// The command that lists the images of an engine, one on each line.
pub fn images_command(engine: &str) -> (cmd: Command)
    ensures
        cmd@ == bare(engine@).arg("images"@).arg("--format"@).arg(
            "{{.Repository}}:{{.Tag}} {{.ID}}"@,
        ),
{
    let mut cmd = Command::new(engine);
    cmd.arg("images");
    cmd.arg2("--format", "{{.Repository}}:{{.Tag}} {{.ID}}");
    cmd
}

/// The images of this project in what the engine listed, in ascending
/// order; with `local`, those built on this machine too. A line that
/// describes no image makes the list malformed.
pub fn get_cross_images(stdout: &str, local: bool) -> (made: Result<Vec<Image>, Error>)
    ensures
        all_images(lines(stdout@)) <==> made is Ok,
        made is Ok ==> images_ascend(image_views(made->Ok_0@)) && image_views(
            made->Ok_0@,
        ).to_multiset() == listed_images(lines(stdout@), local).to_multiset(),
        made is Err ==> made->Err_0@ == ErrorView::Malformed(
            lines(stdout@)[first_match(lines(stdout@), is_no_image())],
        ),
{
    let all = lines_of(stdout);
    let ghost ls = strs(all@);
    let mut images: Vec<Image> = Vec::new();
    let mut i: usize = 0;
    assert(ls.take(0) =~= Seq::empty());
    assert(image_views(images@) =~= Seq::empty());
    while i < all.len()
        invariant
            i <= all.len(),
            ls == strs(all@),
            ls == lines(stdout@),
            all_images(ls.take(i as int)),
            images_ascend(image_views(images@)),
            image_views(images@).to_multiset() == listed_images(ls.take(i as int), local).to_multiset(),
        decreases all.len() - i,
    {
        proof {
            let now = ls.take(i + 1);
            assert(now.drop_last() =~= ls.take(i as int));
            assert(now.last() == ls[i as int]);
        }
        let image = match parse_image(all[i].as_str()) {
            Some(image) => image,
            None => {
                proof {
                    assert(image_of(ls[i as int]) is None);
                    assert forall|j: int| 0 <= j < i implies !is_no_image()(#[trigger] ls[j]) by {
                        assert(ls.take(i as int)[j] == ls[j]);
                    }
                    lemma_first_match_is(ls, is_no_image(), i as int);
                    assert(all@[i as int]@ == ls[i as int]);
                }
                return Err(Error::Malformed(all[i].clone()));
            },
        };
        let wanted = is_cross_image(image.repository.as_str()) && (local || !is_local_image(
            image.tag.as_str(),
        ));
        if wanted {
            let ghost before = image_views(images@);
            let ghost item = image@;
            let mut k: usize = 0;
            while k < images.len() && !image_lt(&image, &images[k])
                invariant
                    k <= images.len(),
                    before == image_views(images@),
                    item == image@,
                    forall|j: int| 0 <= j < k ==> !image_precedes(item, #[trigger] before[j]),
                decreases images.len() - k,
            {
                assert(before[k as int] == images@[k as int]@);
                k += 1;
            }
            proof {
                if k < images.len() {
                    assert(before[k as int] == images@[k as int]@);
                }
            }
            images.insert(k, image);
            proof {
                let now = image_views(images@);
                assert(now =~= before.insert(k as int, item));
                assert forall|a: int, b: int| 0 <= a <= b < now.len() implies !image_precedes(
                    #[trigger] now[b],
                    #[trigger] now[a],
                ) by {
                    if a == b {
                        if image_precedes(now[a], now[a]) {
                            lemma_image_order(now[a], now[a], now[a]);
                        }
                    } else if a < k && b < k {
                        assert(now[a] == before[a] && now[b] == before[b]);
                    } else if a < k && b == k {
                        assert(now[a] == before[a]);
                    } else if a < k && b > k {
                        assert(now[a] == before[a] && now[b] == before[b - 1]);
                    } else if a == k {
                        assert(now[b] == before[b - 1]);
                        assert(image_precedes(item, before[k as int]));
                        assert(!image_precedes(before[b - 1], before[k as int]));
                        if image_precedes(before[b - 1], item) {
                            lemma_image_order(before[b - 1], item, before[k as int]);
                        }
                    } else {
                        assert(now[a] == before[a - 1] && now[b] == before[b - 1]);
                    }
                }
                vstd::seq_lib::to_multiset_insert(before, k as int, item);
                vstd::seq_lib::to_multiset_build(listed_images(ls.take(i as int), local), item);
            }
        }
        i += 1;
        assert forall|j: int| 0 <= j < i implies image_of(#[trigger] ls.take(i as int)[j]) is Some by {
            if j < i - 1 {
                assert(ls.take(i - 1)[j] == ls.take(i as int)[j]);
            }
        }
    }
    assert(ls.take(all.len() as int) =~= ls);
    Ok(images)
}

/// Whether a character may stand in a part of a target's name.
pub open spec fn is_target_char(c: char) -> bool {
    c == '_' || ('0' <= c && c <= '9') || ('a' <= c && c <= 'z') || ('A' <= c && c <= 'Z')
}

/// Whether a part of a tag may belong to a target's name.
pub open spec fn is_target_part(part: Seq<char>) -> bool {
    part.len() > 0 && forall|i: int| 0 <= i < part.len() ==> is_target_char(#[trigger] part[i])
}

/// How many parts of a tag belong to the target's name: the first three
/// in any case, then those that may, up to the first that may not.
pub open spec fn target_parts(parts: Seq<Seq<char>>, from: nat) -> nat
    decreases parts.len() - from,
{
    if from >= parts.len() {
        parts.len()
    } else if from <= 2 || is_target_part(parts[from as int]) {
        target_parts(parts, from + 1)
    } else {
        from
    }
}

/// The target in a tag of the form `target` or `target-version`, as the
/// images of this project were tagged before.
pub open spec fn embedded_target(tag: Seq<char>) -> Seq<char> {
    let parts = split(tag, '-');
    join_with(parts.take(target_parts(parts, 0) as int), "-"@)
}

/// Whether a part of a tag may belong to a target's name.
pub fn may_be_target_part(part: &str) -> (yes: bool)
    ensures
        yes == is_target_part(part@),
{
    let c = chars_of(part);
    if c.len() == 0 {
        return false;
    }
    let mut i: usize = 0;
    while i < c.len()
        invariant
            i <= c.len(),
            c@ == part@,
            forall|j: int| 0 <= j < i ==> is_target_char(#[trigger] c@[j]),
        decreases c.len() - i,
    {
        let ch = c[i];
        let ok = ch == '_' || ('0' <= ch && ch <= '9') || ('a' <= ch && ch <= 'z') || ('A' <= ch
            && ch <= 'Z');
        if !ok {
            assert(!is_target_char(part@[i as int]));
            return false;
        }
        i += 1;
    }
    true
}

/// The target in a tag of the form `target` or `target-version`.
pub fn rustembedded_target(tag: &str) -> (target: String)
    ensures
        target@ == embedded_target(tag@),
{
    let parts = split_on(tag, '-');
    let mut kept: Vec<String> = Vec::new();
    let mut i: usize = 0;
    assert(strs(parts@).take(0) =~= Seq::empty());
    assert(strs(kept@) =~= Seq::empty());
    let mut done = false;
    while i < parts.len() && !done
        invariant
            i <= parts.len(),
            strs(kept@) == strs(parts@).take(i as int),
            !done ==> target_parts(strs(parts@), 0) == target_parts(strs(parts@), i as nat),
            done ==> target_parts(strs(parts@), 0) == i,
        decreases parts.len() - i + (if done { 0int } else { 1int }),
    {
        if i <= 2 || may_be_target_part(parts[i].as_str()) {
            let item = parts[i].clone();
            proof {
                lemma_strs_push(kept@, item);
            }
            kept.push(item);
            i += 1;
            assert(strs(kept@) =~= strs(parts@).take(i as int));
        } else {
            done = true;
        }
    }
    join_strings(&kept, "-")
}

/// The target of an image: what follows the project's name in the
/// repository; else the target in a tag that begins with one of the
/// project's earlier names.
pub open spec fn image_target(image: ImageView) -> Option<Seq<char>> {
    if without_prefix(image.repository, GHCR_IO@) is Some {
        without_prefix(image.repository, GHCR_IO@)
    } else if without_prefix(image.tag, RUST_EMBEDDED@) is Some {
        Some(embedded_target(without_prefix(image.tag, RUST_EMBEDDED@)->0))
    } else if without_prefix(image.tag, DOCKER_IO@) is Some {
        Some(embedded_target(without_prefix(image.tag, DOCKER_IO@)->0))
    } else {
        None
    }
}

/// The target of an image. An image that names none is an error that
/// keeps the image's name.
pub fn get_image_target(image: &Image) -> (made: Result<String, Error>)
    ensures
        image_target(image@) is Some <==> made is Ok,
        made is Ok ==> made->Ok_0@ == image_target(image@)->0,
        made is Err ==> (made->Err_0 matches Error::NoImageTarget(name) && name@
            == image.repository@ + ":"@ + image.tag@),
{
    if let Some(stripped) = strip_prefix(image.repository.as_str(), GHCR_IO) {
        return Ok(stripped);
    }
    if let Some(tag) = strip_prefix(image.tag.as_str(), RUST_EMBEDDED) {
        return Ok(rustembedded_target(tag.as_str()));
    }
    if let Some(tag) = strip_prefix(image.tag.as_str(), DOCKER_IO) {
        return Ok(rustembedded_target(tag.as_str()));
    }
    Err(Error::NoImageTarget(image.name()))
}

/// The names of the images, in order.
pub open spec fn image_names(images: Seq<ImageView>) -> Seq<Seq<char>> {
    Seq::new(images.len(), |i: int| images[i].repository + ":"@ + images[i].tag)
}

/// What is shown when images are listed: the name of each.
pub fn list_images(images: &Vec<Image>) -> (shown: Vec<String>)
    ensures
        strs(shown@) == image_names(image_views(images@)),
{
    let mut shown: Vec<String> = Vec::new();
    let mut i: usize = 0;
    while i < images.len()
        invariant
            i <= images.len(),
            strs(shown@) == image_names(image_views(images@).take(i as int)),
        decreases images.len() - i,
    {
        let name = images[i].name();
        proof {
            lemma_strs_push(shown@, name);
        }
        shown.push(name);
        i += 1;
        assert(strs(shown@) =~= image_names(image_views(images@).take(i as int)));
    }
    assert(image_views(images@).take(images.len() as int) =~= image_views(images@));
    shown
}

/// The command that removes images.
pub open spec fn remove_images_cmd(engine: Seq<char>, ids: Seq<Seq<char>>, force: bool) -> CommandView {
    if force {
        bare(engine).arg("rmi"@).arg("--force"@).args(ids)
    } else {
        bare(engine).arg("rmi"@).args(ids)
    }
}

/// The command that removes the images with the ids.
pub fn remove_images(engine: &str, ids: &Vec<String>, force: bool) -> (cmd: Command)
    ensures
        cmd@ == remove_images_cmd(engine@, strs(ids@), force),
{
    let mut cmd = Command::new(engine);
    cmd.arg("rmi");
    if force {
        cmd.arg("--force");
    }
    cmd.args(ids);
    cmd
}

/// The ids of the images, in order.
pub open spec fn image_ids(images: Seq<ImageView>) -> Seq<Seq<char>> {
    Seq::new(images.len(), |i: int| images[i].id)
}

/// The command that removes all of the images.
pub fn remove_all_images(images: &Vec<Image>, engine: &str, force: bool) -> (cmd: Command)
    ensures
        cmd@ == remove_images_cmd(engine@, image_ids(image_views(images@)), force),
{
    let mut ids: Vec<String> = Vec::new();
    let mut i: usize = 0;
    while i < images.len()
        invariant
            i <= images.len(),
            strs(ids@) == image_ids(image_views(images@).take(i as int)),
        decreases images.len() - i,
    {
        push_str(&mut ids, images[i].id.as_str());
        i += 1;
        assert(strs(ids@) =~= image_ids(image_views(images@).take(i as int)));
    }
    assert(image_views(images@).take(images.len() as int) =~= image_views(images@));
    remove_images(engine, &ids, force)
}

/// The ids of those images whose target is among `targets`, in order.
pub open spec fn target_ids(images: Seq<ImageView>, targets: Seq<Seq<char>>) -> Seq<Seq<char>>
    decreases images.len(),
{
    if images.len() == 0 {
        Seq::empty()
    } else {
        let before = target_ids(images.drop_last(), targets);
        if image_target(images.last()) is Some && targets.contains(image_target(images.last())->0) {
            before.push(images.last().id)
        } else {
            before
        }
    }
}

/// Whether every image names a target.
pub open spec fn all_have_targets(images: Seq<ImageView>) -> bool {
    forall|i: int| 0 <= i < images.len() ==> image_target(#[trigger] images[i]) is Some
}

/// The predicate "names no target".
pub open spec fn has_no_target() -> spec_fn(ImageView) -> bool {
    |image: ImageView| image_target(image) is None
}

/// The command that removes the images of the targets. An image that
/// names no target is an error that keeps the name of the first such
/// image.
pub fn remove_target_images(images: &Vec<Image>, targets: &Vec<String>, engine: &str, force: bool) -> (made:
    Result<Command, Error>)
    ensures
        all_have_targets(image_views(images@)) <==> made is Ok,
        made is Ok ==> made->Ok_0@ == remove_images_cmd(
            engine@,
            target_ids(image_views(images@), strs(targets@)),
            force,
        ),
        made is Err ==> ({
            let image = image_views(images@)[first_match(image_views(images@), has_no_target())];
            made->Err_0@ == ErrorView::NoImageTarget(image.repository + ":"@ + image.tag)
        }),
{
    let mut ids: Vec<String> = Vec::new();
    let ghost all = image_views(images@);
    let mut i: usize = 0;
    assert(all.take(0) =~= Seq::empty());
    assert(strs(ids@) =~= Seq::empty());
    while i < images.len()
        invariant
            i <= images.len(),
            all == image_views(images@),
            all_have_targets(all.take(i as int)),
            strs(ids@) == target_ids(all.take(i as int), strs(targets@)),
        decreases images.len() - i,
    {
        proof {
            let now = all.take(i + 1);
            assert(now.drop_last() =~= all.take(i as int));
            assert(now.last() == images@[i as int]@);
        }
        let target = match get_image_target(&images[i]) {
            Ok(target) => target,
            Err(e) => {
                proof {
                    assert(image_target(all[i as int]) is None);
                    assert forall|j: int| 0 <= j < i implies !has_no_target()(#[trigger] all[j]) by {
                        assert(all.take(i as int)[j] == all[j]);
                    }
                    lemma_first_match_is(all, has_no_target(), i as int);
                }
                return Err(e);
            },
        };
        if crate::cargo::contains_string(targets, target.as_str()) {
            push_str(&mut ids, images[i].id.as_str());
        }
        i += 1;
        assert forall|j: int| 0 <= j < i implies image_target(#[trigger] all.take(i as int)[j]) is Some by {
            if j < i - 1 {
                assert(all.take(i - 1)[j] == all.take(i as int)[j]);
            }
        }
    }
    assert(all.take(images.len() as int) =~= all);
    Ok(remove_images(engine, &ids, force))
}

} // verus!
