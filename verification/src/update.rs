//! What a release description says about an update of this program.

use crate::json::{items_view, Json, JsonView};
use crate::text::{ends_with, has_suffix, strip_leading, trim_leading};
use vstd::prelude::*;

verus! {

/// The newest release and whether it differs from the running version.
#[derive(Debug, PartialEq, Eq)]
pub struct UpdateInfo {
    /// The release's version, without the `v` that tags begin with.
    pub latest_version: String,
    /// Where the release's installer is downloaded.
    pub download_url: String,
    /// Whether the release's version differs from the running one.
    pub has_update: bool,
}

/// An [`UpdateInfo`] as mathematical values.
pub struct UpdateInfoView {
    pub latest_version: Seq<char>,
    pub download_url: Seq<char>,
    pub has_update: bool,
}

impl View for UpdateInfo {
    type V = UpdateInfoView;

    open spec fn view(&self) -> UpdateInfoView {
        UpdateInfoView {
            latest_version: self.latest_version@,
            download_url: self.download_url@,
            has_update: self.has_update,
        }
    }
}

/// What a release description lacks.
#[derive(Clone, Copy, Debug, PartialEq, Eq)]
pub enum UpdateError {
    /// No `tag_name` that is a string.
    MissingVersion,
    /// No `assets` that is an array.
    MissingAssets,
    /// No asset whose name ends in `.exe`.
    NoExecutable,
    /// The installer has no `browser_download_url` that is a string.
    MissingDownloadUrl,
}

/// The string under `key`, where the value is an object that has the key with
/// a string.
pub open spec fn text_member(v: JsonView, key: Seq<char>) -> Option<Seq<char>> {
    match v.member(key) {
        Some(JsonView::Text(s)) => Some(s),
        _ => None,
    }
}

/// Whether an asset is an installer: it has a name that ends in `.exe`.
pub open spec fn is_installer(asset: JsonView) -> bool {
    match text_member(asset, "name"@) {
        Some(name) => ends_with(name, ".exe"@),
        None => false,
    }
}

/// The index of the first installer among the assets, if there is one.
pub open spec fn first_installer(assets: Seq<JsonView>) -> Option<int>
    decreases assets.len(),
{
    if assets.len() == 0 {
        None
    } else {
        match first_installer(assets.drop_last()) {
            Some(i) => Some(i),
            None => if is_installer(assets.last()) {
                Some(assets.len() - 1)
            } else {
                None
            },
        }
    }
}

/// What a release says about an update from the version `current`.
///
/// The version is the release's tag without its leading `v`s. The installer is
/// the first asset whose name ends in `.exe`. An update is due where the
/// version differs from `current`.
pub open spec fn release_update(release: JsonView, current: Seq<char>) -> Result<
    UpdateInfoView,
    UpdateError,
> {
    match text_member(release, "tag_name"@) {
        None => Err(UpdateError::MissingVersion),
        Some(tag) => match release.member("assets"@) {
            Some(JsonView::Array(assets)) => match first_installer(assets) {
                None => Err(UpdateError::NoExecutable),
                Some(i) => match text_member(assets[i], "browser_download_url"@) {
                    None => Err(UpdateError::MissingDownloadUrl),
                    Some(url) => Ok(
                        UpdateInfoView {
                            latest_version: strip_leading(tag, 'v'),
                            download_url: url,
                            has_update: strip_leading(tag, 'v') != current,
                        },
                    ),
                },
            },
            _ => Err(UpdateError::MissingAssets),
        },
    }
}

/// What `first_installer` finds: the least index that holds an installer.
pub proof fn lemma_first_installer(assets: Seq<JsonView>)
    ensures
        match first_installer(assets) {
            Some(i) => {
                &&& 0 <= i < assets.len()
                &&& is_installer(assets[i])
                &&& forall|j: int| 0 <= j < i ==> !is_installer(assets[j])
            },
            None => forall|j: int| 0 <= j < assets.len() ==> !is_installer(assets[j]),
        },
    decreases assets.len(),
{
    if assets.len() > 0 {
        let front = assets.drop_last();
        lemma_first_installer(front);
        assert(forall|j: int| 0 <= j < front.len() ==> front[j] == assets[j]);
    }
}

/// The string under `key` of an object.
fn text_of<'a>(v: &'a Json, key: &str) -> (r: Option<&'a String>)
    ensures
        match r {
            Some(s) => text_member(v@, key@) == Some(s@),
            None => text_member(v@, key@) is None,
        },
{
    match v.member(key) {
        Some(j) => j.as_text(),
        None => None,
    }
}

/// Finds the first installer among the assets.
fn find_installer(assets: &Vec<Json>) -> (r: Option<usize>)
    ensures
        match r {
            Some(i) => i < assets.len() && first_installer(items_view(assets@)) == Some(i as int),
            None => first_installer(items_view(assets@)) is None,
        },
{
    let mut i: usize = 0;
    while i < assets.len()
        invariant
            i <= assets.len(),
            forall|j: int| 0 <= j < i ==> !is_installer(items_view(assets@)[j]),
        decreases assets.len() - i,
    {
        assert(items_view(assets@)[i as int] == assets[i as int]@);
        let named = match text_of(&assets[i], "name") {
            Some(name) => has_suffix(name.as_str(), ".exe"),
            None => false,
        };
        if named {
            proof {
                lemma_first_installer(items_view(assets@));
            }
            return Some(i);
        }
        i += 1;
    }
    proof {
        lemma_first_installer(items_view(assets@));
    }
    None
}

/// Reads a release description and compares its version with the running one.
pub fn check_update(current_version: &str, release: &Json) -> (r: Result<UpdateInfo, UpdateError>)
    ensures
        match r {
            Ok(info) => release_update(release@, current_version@) == Ok::<
                UpdateInfoView,
                UpdateError,
            >(info@),
            Err(e) => release_update(release@, current_version@) == Err::<
                UpdateInfoView,
                UpdateError,
            >(e),
        },
{
    let tag = match text_of(release, "tag_name") {
        Some(tag) => tag,
        None => {
            return Err(UpdateError::MissingVersion);
        },
    };
    let assets = match release.member("assets") {
        Some(j) => match j.as_array() {
            Some(assets) => assets,
            None => {
                return Err(UpdateError::MissingAssets);
            },
        },
        None => {
            return Err(UpdateError::MissingAssets);
        },
    };
    let installer = match find_installer(assets) {
        Some(i) => &assets[i],
        None => {
            return Err(UpdateError::NoExecutable);
        },
    };
    let url = match text_of(installer, "browser_download_url") {
        Some(url) => url,
        None => {
            return Err(UpdateError::MissingDownloadUrl);
        },
    };
    let latest_version = trim_leading(tag.as_str(), 'v');
    let has_update = !(latest_version == current_version.to_owned());
    Ok(UpdateInfo { latest_version, download_url: url.clone(), has_update })
}

impl UpdateError {
    /// The reason in words.
    pub fn message(&self) -> (text: String)
        ensures
            text@ == match *self {
                UpdateError::MissingVersion => "无法获取最新版本号"@,
                UpdateError::MissingAssets => "无法获取发布资源"@,
                UpdateError::NoExecutable => "未找到可执行文件"@,
                UpdateError::MissingDownloadUrl => "无法获取下载链接"@,
            },
    {
        match self {
            UpdateError::MissingVersion => "无法获取最新版本号".to_owned(),
            UpdateError::MissingAssets => "无法获取发布资源".to_owned(),
            UpdateError::NoExecutable => "未找到可执行文件".to_owned(),
            UpdateError::MissingDownloadUrl => "无法获取下载链接".to_owned(),
        }
    }
}

} // verus!
