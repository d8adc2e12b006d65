//! The package-metadata record the backends and layout strategies consume:
//! pre-validated plain values handed in by the metadata collaborator.
use vstd::prelude::*;
use vstd::string::StringExecFns;

verus! {

/// Package metadata, consumed read-only: distribution name and version (both
/// already escaped for file naming), the opaque serialized metadata file,
/// entry points as explicitly ordered lists, and license file paths.
pub struct PackageMetadata {
    pub name: String,
    pub version: String,
    pub metadata_file_contents: String,
    pub scripts: Vec<(String, String)>,
    pub gui_scripts: Vec<(String, String)>,
    pub entry_points: Vec<(String, Vec<(String, String)>)>,
    pub license_files: Vec<String>,
}

impl Default for PackageMetadata {
    /// An empty metadata record.
    fn default() -> (r: Self)
        ensures
            r.name@ == Seq::<char>::empty(),
            r.version@ == Seq::<char>::empty(),
            r.metadata_file_contents@ == Seq::<char>::empty(),
            r.scripts@ == Seq::<(String, String)>::empty(),
            r.gui_scripts@ == Seq::<(String, String)>::empty(),
            r.entry_points@ == Seq::<(String, Vec<(String, String)>)>::empty(),
            r.license_files@ == Seq::<String>::empty(),
    {
        PackageMetadata {
            name: String::new(),
            version: String::new(),
            metadata_file_contents: String::new(),
            scripts: Vec::new(),
            gui_scripts: Vec::new(),
            entry_points: Vec::new(),
            license_files: Vec::new(),
        }
    }
}

/// The metadata directory name: `{name}-{version}.dist-info`.
pub open spec fn dist_info_dir_chars(name: Seq<char>, version: Seq<char>) -> Seq<char> {
    name + "-"@ + version + ".dist-info"@
}

/// The source archive name: `{name}-{version}.tar.gz`.
pub open spec fn sdist_name_chars(name: Seq<char>, version: Seq<char>) -> Seq<char> {
    name + "-"@ + version + ".tar.gz"@
}

/// The wheel archive name: `{name}-{version}-{tag}.whl`.
pub open spec fn wheel_name_chars(name: Seq<char>, version: Seq<char>, tag: Seq<char>) -> Seq<
    char,
> {
    name + "-"@ + version + "-"@ + tag + ".whl"@
}

/// The auxiliary data directory name: `{name}-{version}.data`.
pub open spec fn data_dir_chars(name: Seq<char>, version: Seq<char>) -> Seq<char> {
    name + "-"@ + version + ".data"@
}

impl PackageMetadata {
    /// The metadata directory name for this package.
    pub fn get_dist_info_dir(&self) -> (r: String)
        ensures
            r@ == dist_info_dir_chars(self.name@, self.version@),
    {
        let mut s = self.name.clone();
        s.append("-");
        s.append(self.version.as_str());
        s.append(".dist-info");
        proof {
            assert(s@ =~= dist_info_dir_chars(self.name@, self.version@));
        }
        s
    }

    /// The source archive file name for this package.
    pub fn sdist_name(&self) -> (r: String)
        ensures
            r@ == sdist_name_chars(self.name@, self.version@),
    {
        let mut s = self.name.clone();
        s.append("-");
        s.append(self.version.as_str());
        s.append(".tar.gz");
        proof {
            assert(s@ =~= sdist_name_chars(self.name@, self.version@));
        }
        s
    }

    /// The wheel archive file name for this package under `tag`.
    pub fn wheel_name(&self, tag: &str) -> (r: String)
        ensures
            r@ == wheel_name_chars(self.name@, self.version@, tag@),
    {
        let mut s = self.name.clone();
        s.append("-");
        s.append(self.version.as_str());
        s.append("-");
        s.append(tag);
        s.append(".whl");
        proof {
            assert(s@ =~= wheel_name_chars(self.name@, self.version@, tag@));
        }
        s
    }

    /// The auxiliary data directory name for this package.
    pub fn data_dir_name(&self) -> (r: String)
        ensures
            r@ == data_dir_chars(self.name@, self.version@),
    {
        let mut s = self.name.clone();
        s.append("-");
        s.append(self.version.as_str());
        s.append(".data");
        proof {
            assert(s@ =~= data_dir_chars(self.name@, self.version@));
        }
        s
    }
}

/// Where a project's sources live: the interpreted-source tree if the project
/// has one, the directory holding the compiled crate's module, and the name
/// the compiled extension is exposed under.
pub struct ProjectLayout {
    pub python_module: Option<String>,
    pub rust_module: String,
    pub extension_name: String,
}

} // verus!
