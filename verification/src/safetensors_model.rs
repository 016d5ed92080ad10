//! SafeTensors files: loading, and access to the tensors in them.

use crate::le;
use crate::safetensors_header;
use crate::safetensors_header::{check_size, Declaration};
use crate::text;
use vstd::prelude::*;

verus! {

/// The element types of SafeTensors files.
#[derive(Debug, Clone, Copy, PartialEq, Eq, Structural)]
#[allow(non_camel_case_types)]
pub enum SafeTensorDtype {
    BOOL,
    U8,
    I8,
    F8_E5M2,
    F8_E4M3,
    I16,
    U16,
    F16,
    BF16,
    I32,
    U32,
    F32,
    F64,
    I64,
    U64,
    /// A type with a name that is not among these.
    Unknown,
}

/// A tensor in a SafeTensors file.
#[derive(Debug)]
pub struct SafeTensorView<'data> {
    pub dtype: SafeTensorDtype,
    pub shape: Vec<usize>,
    pub data: &'data [u8],
}

/// The mathematical content of a tensor in a SafeTensors file.
#[verifier::ext_equal]
pub struct SourceTensor {
    pub dtype: SafeTensorDtype,
    pub shape: Seq<usize>,
    pub data: Seq<u8>,
}

impl<'data> View for SafeTensorView<'data> {
    type V = SourceTensor;

    open spec fn view(&self) -> SourceTensor {
        SourceTensor { dtype: self.dtype, shape: self.shape@, data: self.data@ }
    }
}

impl<'data> SafeTensorView<'data> {
    /// The type of the elements.
    pub fn dtype(&self) -> (r: SafeTensorDtype)
        ensures
            r == self@.dtype,
    {
        self.dtype
    }

    /// The number of elements along each dimension.
    pub fn shape(&self) -> (r: &[usize])
        ensures
            r@ == self@.shape,
    {
        self.shape.as_slice()
    }

    /// The bytes of the elements.
    pub fn data(&self) -> (r: &'data [u8])
        ensures
            r@ == self@.data,
    {
        self.data
    }
}

/// The element type with a given name.
pub open spec fn dtype_of_name(name: Seq<char>) -> SafeTensorDtype {
    if name == "BOOL"@ {
        SafeTensorDtype::BOOL
    } else if name == "U8"@ {
        SafeTensorDtype::U8
    } else if name == "I8"@ {
        SafeTensorDtype::I8
    } else if name == "F8_E5M2"@ {
        SafeTensorDtype::F8_E5M2
    } else if name == "F8_E4M3"@ {
        SafeTensorDtype::F8_E4M3
    } else if name == "I16"@ {
        SafeTensorDtype::I16
    } else if name == "U16"@ {
        SafeTensorDtype::U16
    } else if name == "F16"@ {
        SafeTensorDtype::F16
    } else if name == "BF16"@ {
        SafeTensorDtype::BF16
    } else if name == "I32"@ {
        SafeTensorDtype::I32
    } else if name == "U32"@ {
        SafeTensorDtype::U32
    } else if name == "F32"@ {
        SafeTensorDtype::F32
    } else if name == "F64"@ {
        SafeTensorDtype::F64
    } else if name == "I64"@ {
        SafeTensorDtype::I64
    } else if name == "U64"@ {
        SafeTensorDtype::U64
    } else {
        SafeTensorDtype::Unknown
    }
}

/// The element type with the name `name`.
fn dtype_named(name: &str) -> (r: SafeTensorDtype)
    ensures
        r == dtype_of_name(name@),
{
    if text::same_text(name, "BOOL") {
        SafeTensorDtype::BOOL
    } else if text::same_text(name, "U8") {
        SafeTensorDtype::U8
    } else if text::same_text(name, "I8") {
        SafeTensorDtype::I8
    } else if text::same_text(name, "F8_E5M2") {
        SafeTensorDtype::F8_E5M2
    } else if text::same_text(name, "F8_E4M3") {
        SafeTensorDtype::F8_E4M3
    } else if text::same_text(name, "I16") {
        SafeTensorDtype::I16
    } else if text::same_text(name, "U16") {
        SafeTensorDtype::U16
    } else if text::same_text(name, "F16") {
        SafeTensorDtype::F16
    } else if text::same_text(name, "BF16") {
        SafeTensorDtype::BF16
    } else if text::same_text(name, "I32") {
        SafeTensorDtype::I32
    } else if text::same_text(name, "U32") {
        SafeTensorDtype::U32
    } else if text::same_text(name, "F32") {
        SafeTensorDtype::F32
    } else if text::same_text(name, "F64") {
        SafeTensorDtype::F64
    } else if text::same_text(name, "I64") {
        SafeTensorDtype::I64
    } else if text::same_text(name, "U64") {
        SafeTensorDtype::U64
    } else {
        SafeTensorDtype::Unknown
    }
}

/// A SafeTensors file as `safetensors` holds it.
#[verifier::external_type_specification]
#[verifier::external_body]
pub struct ExSafeTensors<'data>(safetensors::SafeTensors<'data>);

/// What a `safetensors::SafeTensors` holds: its tensors by name.
pub uninterp spec fn tensors_held(st: safetensors::SafeTensors<'_>) -> Map<Seq<char>, SourceTensor>;

/// What `safetensors::SafeTensors::deserialize` makes of the bytes of a file: the tensors by
/// name, or the faults that it may report. Where a header is faulty in several tensors with the
/// same offsets, the order in which a hash map is walked decides which fault it is.
pub uninterp spec fn decoded_tensors(bytes: Seq<u8>) -> Result<
    Map<Seq<char>, SourceTensor>,
    Set<Seq<char>>,
>;

/// A tensor whose element type is given by name.
pub struct NamedView<'data> {
    pub dtype: String,
    pub shape: Vec<usize>,
    pub data: &'data [u8],
}

impl<'data> NamedView<'data> {
    /// The content of the tensor.
    pub open spec fn content(self) -> SourceTensor {
        SourceTensor {
            dtype: dtype_of_name(self.dtype@),
            shape: self.shape@,
            data: self.data@,
        }
    }

    /// The tensor with its element type looked up.
    fn typed(&self) -> (r: SafeTensorView<'data>)
        ensures
            r@ == self.content(),
    {
        let r = SafeTensorView {
            dtype: dtype_named(self.dtype.as_str()),
            shape: self.shape.clone(),
            data: self.data,
        };
        assert(r@ =~= self.content());
        r
    }
}

/// Calls `safetensors::SafeTensors::deserialize`. Whether it succeeds, what it then reads, and
/// which faults it may report otherwise are functions of the bytes. It adds up the length of the
/// header and the end of the last tensor without a check, which leaves out files where they do
/// not fit.
#[verifier::external_body]
fn deserialize<'data>(bytes: &'data [u8]) -> (r: Result<safetensors::SafeTensors<'data>, String>)
    requires
        safetensors_header::size_fits(bytes@),
    ensures
        match r {
            Ok(st) => decoded_tensors(bytes@) == Ok::<_, Set<Seq<char>>>(tensors_held(st)),
            Err(fault) => decoded_tensors(bytes@) matches Err(faults) && faults.contains(fault@),
        },
{
    safetensors::SafeTensors::deserialize(bytes).map_err(|e| e.to_string())
}

/// `entries` holds the tensors of `tensors`, each once, in some order.
pub open spec fn lists(
    entries: Seq<(Seq<char>, SourceTensor)>,
    tensors: Map<Seq<char>, SourceTensor>,
) -> bool {
    &&& forall|i: int, j: int|
        0 <= i < j < entries.len() ==> (#[trigger] entries[i]).0 != (#[trigger] entries[j]).0
    &&& forall|i: int|
        0 <= i < entries.len() ==> tensors.contains_key((#[trigger] entries[i]).0)
            && tensors[entries[i].0] == entries[i].1
    &&& forall|name: Seq<char>| #[trigger]
        tensors.contains_key(name) ==> exists|i: int|
            0 <= i < entries.len() && (#[trigger] entries[i]).0 == name
}

/// The contents of tensors whose element types are given by name.
pub open spec fn named_contents(entries: Seq<(String, NamedView<'_>)>) -> Seq<
    (Seq<char>, SourceTensor),
> {
    Seq::new(entries.len(), |i: int| (entries[i].0@, entries[i].1.content()))
}

/// Calls `safetensors::SafeTensors::tensors`, and reads each tensor with `dtype`, `shape` and
/// `data`; the name of a type is what its `Debug` prints. Every tensor comes once. They come in
/// the order in which a hash map is walked, of which nothing is said.
#[verifier::external_body]
fn all_tensors<'data>(st: &safetensors::SafeTensors<'data>) -> (r: Vec<(String, NamedView<'data>)>)
    ensures
        lists(named_contents(r@), tensors_held(*st)),
{
    st.tensors().into_iter().map(|(name, t)| (name, NamedView {
        dtype: format!("{:?}", t.dtype()),
        shape: t.shape().to_vec(),
        data: t.data(),
    })).collect()
}

/// Calls `safetensors::SafeTensors::tensor`, and reads the tensor with `dtype`, `shape` and
/// `data`; the name of a type is what its `Debug` prints. It fails exactly where no tensor has
/// the name.
#[verifier::external_body]
fn one_tensor<'data>(st: &safetensors::SafeTensors<'data>, name: &str) -> (r: Option<NamedView<'data>>)
    ensures
        match r {
            Some(t) => tensors_held(*st).contains_key(name@) && tensors_held(*st)[name@]
                == t.content(),
            None => !tensors_held(*st).contains_key(name@),
        },
{
    st.tensor(name).ok().map(|t| NamedView {
        dtype: format!("{:?}", t.dtype()),
        shape: t.shape().to_vec(),
        data: t.data(),
    })
}

/// What came of the attempt to read a file.
#[derive(Debug)]
pub enum FileRead {
    /// There is no such file.
    NotFound,
    /// The file could not be opened; the cause.
    OpenFailed(String),
    /// The file was opened and could not be read; the cause.
    ReadFailed(String),
    /// The bytes of the file.
    Contents(Vec<u8>),
}

/// Why a file could not be loaded.
#[derive(Debug)]
pub enum LoadError {
    /// There is no such file.
    NotFound { path: String },
    /// The file could not be opened.
    OpenFailed { path: String, cause: String },
    /// The file could not be read.
    ReadFailed { path: String, cause: String },
    /// The file is no SafeTensors file.
    InvalidFormat { path: String, cause: String },
}

impl LoadError {
    /// What the error says.
    pub open spec fn text(self) -> Seq<char> {
        match self {
            LoadError::NotFound { path } => "Safetensors file not found: "@ + path@,
            LoadError::OpenFailed { path, .. } => "Failed to open file: "@ + path@,
            LoadError::ReadFailed { path, .. } => "Failed to read file content: "@ + path@,
            LoadError::InvalidFormat { path, .. } =>
                "Failed initial validation of safetensors format in: "@ + path@,
        }
    }

    /// What the error says.
    pub fn message(&self) -> (r: String)
        ensures
            r@ == self.text(),
    {
        match self {
            LoadError::NotFound { path } => text::concatenated(
                "Safetensors file not found: ",
                path.as_str(),
            ),
            LoadError::OpenFailed { path, .. } => text::concatenated(
                "Failed to open file: ",
                path.as_str(),
            ),
            LoadError::ReadFailed { path, .. } => text::concatenated(
                "Failed to read file content: ",
                path.as_str(),
            ),
            LoadError::InvalidFormat { path, .. } => text::concatenated(
                "Failed initial validation of safetensors format in: ",
                path.as_str(),
            ),
        }
    }
}

/// Why a tensor could not be got from a loaded file.
#[derive(Debug)]
pub enum TensorError {
    /// The file is no SafeTensors file.
    InvalidHeader { cause: String },
    /// The file has no tensor with this name.
    NotFound { name: String },
}

impl TensorError {
    /// What the error says.
    pub open spec fn text(self) -> Seq<char> {
        match self {
            TensorError::InvalidHeader { .. } =>
                "Failed to deserialize SafeTensors header from buffer"@,
            TensorError::NotFound { name } => "Failed to find tensor named '"@ + name@ + "'"@,
        }
    }

    /// What the error says.
    pub fn message(&self) -> (r: String)
        ensures
            r@ == self.text(),
    {
        match self {
            TensorError::InvalidHeader { .. } =>
                "Failed to deserialize SafeTensors header from buffer".to_owned(),
            TensorError::NotFound { name } => text::concatenated(
                text::concatenated("Failed to find tensor named '", name.as_str()).as_str(),
                "'",
            ),
        }
    }
}

/// A loaded SafeTensors file.
#[derive(Debug)]
pub struct SafeTensorsModel {
    _buffer: Vec<u8>,
    path: String,
}

/// The bytes of a file that can be loaded.
pub open spec fn loadable(bytes: Seq<u8>) -> bool {
    safetensors_header::size_fits(bytes) && decoded_tensors(bytes) is Ok
}

/// `cause` is a fault that may be reported of the bytes of a file that cannot be loaded: that its
/// length is not the one its header asks for, where that is no `usize`, and what
/// `safetensors::SafeTensors::deserialize` reports otherwise.
pub open spec fn may_report(bytes: Seq<u8>, cause: Seq<char>) -> bool {
    if safetensors_header::size_fits(bytes) {
        decoded_tensors(bytes) matches Err(faults) && faults.contains(cause)
    } else {
        cause == "MetadataIncompleteBuffer"@
    }
}

/// The contents of several tensors with their names.
pub open spec fn tensor_contents(entries: Seq<(String, SafeTensorView<'_>)>) -> Seq<
    (Seq<char>, SourceTensor),
> {
    Seq::new(entries.len(), |i: int| (entries[i].0@, entries[i].1@))
}

impl SafeTensorsModel {
    #[verifier::type_invariant]
    spec fn is_loadable(self) -> bool {
        loadable(self._buffer@)
    }

    /// The bytes of the file.
    pub closed spec fn bytes(self) -> Seq<u8> {
        self._buffer@
    }

    /// Where the file was loaded from.
    pub closed spec fn source(self) -> Seq<char> {
        self.path@
    }

    /// The tensors in the file by name.
    pub open spec fn content(self) -> Map<Seq<char>, SourceTensor> {
        decoded_tensors(self.bytes())->Ok_0
    }

    /// The tensor names and their views. The order is that of a hash map.
    pub fn tensors(&self) -> (r: Result<Vec<(String, SafeTensorView<'_>)>, TensorError>)
        ensures
            decoded_tensors(self.bytes()) is Ok,
            r matches Ok(entries) && lists(tensor_contents(entries@), self.content()),
    {
        proof {
            use_type_invariant(self);
        }
        let st = match deserialize(self._buffer.as_slice()) {
            Ok(st) => st,
            Err(cause) => {
                return Err(TensorError::InvalidHeader { cause });
            },
        };
        let named = all_tensors(&st);
        let ghost contents = named_contents(named@);
        let mut entries: Vec<(String, SafeTensorView<'_>)> = Vec::new();
        let mut i: usize = 0;
        while i < named.len()
            invariant
                i <= named@.len(),
                entries@.len() == i,
                contents == named_contents(named@),
                forall|j: int|
                    0 <= j < i ==> ((#[trigger] entries@[j]).0@, entries@[j].1@) == contents[j],
            decreases named@.len() - i,
        {
            entries.push((named[i].0.clone(), named[i].1.typed()));
            i = i + 1;
        }
        assert(tensor_contents(entries@) =~= contents);
        Ok(entries)
    }

    /// The tensor with the name `name`.
    pub fn tensor(&self, name: &str) -> (r: Result<SafeTensorView<'_>, TensorError>)
        ensures
            decoded_tensors(self.bytes()) is Ok,
            match r {
                Ok(view) => self.content().contains_key(name@) && self.content()[name@] == view@,
                Err(e) => !self.content().contains_key(name@) && (e matches TensorError::NotFound {
                    name: missing,
                } && missing@ == name@),
            },
    {
        proof {
            use_type_invariant(self);
        }
        let st = match deserialize(self._buffer.as_slice()) {
            Ok(st) => st,
            Err(cause) => {
                return Err(TensorError::InvalidHeader { cause });
            },
        };
        match one_tensor(&st, name) {
            Some(view) => Ok(view.typed()),
            None => Err(TensorError::NotFound { name: name.to_owned() }),
        }
    }

    /// Where the file was loaded from.
    pub fn path(&self) -> (r: &str)
        ensures
            r@ == self.source(),
    {
        self.path.as_str()
    }

    /// The bytes of the file.
    pub fn buffer(&self) -> (r: &[u8])
        ensures
            r@ == self.bytes(),
    {
        self._buffer.as_slice()
    }
}

/// Loads a SafeTensors file from what came of reading the file at `path`.
pub fn load_safetensors(path: &str, read: FileRead) -> (r: Result<SafeTensorsModel, LoadError>)
    ensures
        match read {
            FileRead::NotFound => r matches Err(LoadError::NotFound { path: p }) && p@ == path@,
            FileRead::OpenFailed(cause) => r matches Err(LoadError::OpenFailed { path: p, cause: c })
                && p@ == path@ && c@ == cause@,
            FileRead::ReadFailed(cause) => r matches Err(LoadError::ReadFailed { path: p, cause: c })
                && p@ == path@ && c@ == cause@,
            FileRead::Contents(bytes) => match r {
                Ok(model) => decoded_tensors(bytes@) is Ok && loadable(bytes@) && model.bytes() == bytes@ && model.source()
                    == path@,
                Err(e) => !loadable(bytes@) && (e matches LoadError::InvalidFormat {
                    path: p,
                    cause: c,
                } && p@ == path@ && may_report(bytes@, c@)),
            },
        },
        read matches FileRead::Contents(bytes) ==> (decoded_tensors(bytes@) is Ok && r is Err ==> {
            let n = le::le_value(bytes@.subrange(0, 8));
            &&& 8 + n <= bytes@.len()
            &&& safetensors_header::declared_tensors(bytes@.subrange(8, 8 + n as int)) is Some
            &&& exists|t: Declaration| #[trigger]
                safetensors_header::declared_tensors(
                    bytes@.subrange(8, 8 + n as int),
                )->0.count(t) > 0 && t.end + 8 + n > usize::MAX
        }),
{
    let buffer = match read {
        FileRead::NotFound => {
            return Err(LoadError::NotFound { path: path.to_owned() });
        },
        FileRead::OpenFailed(cause) => {
            return Err(LoadError::OpenFailed { path: path.to_owned(), cause });
        },
        FileRead::ReadFailed(cause) => {
            return Err(LoadError::ReadFailed { path: path.to_owned(), cause });
        },
        FileRead::Contents(buffer) => buffer,
    };
    proof {
        safetensors_header::law_header(buffer@);
        safetensors_header::law_refused_before_decoding(buffer@);
    }
    if !check_size(buffer.as_slice()) {
        return Err(
            LoadError::InvalidFormat {
                path: path.to_owned(),
                cause: "MetadataIncompleteBuffer".to_owned(),
            },
        );
    }
    match deserialize(buffer.as_slice()) {
        Ok(_) => {},
        Err(cause) => {
            return Err(LoadError::InvalidFormat { path: path.to_owned(), cause });
        },
    }
    Ok(SafeTensorsModel { _buffer: buffer, path: path.to_owned() })
}

/// Each of fifteen names is that of an element type, and every other name is that of none.
pub proof fn law_element_type_names(name: Seq<char>)
    ensures
        dtype_of_name("BOOL"@) == SafeTensorDtype::BOOL,
        dtype_of_name("U8"@) == SafeTensorDtype::U8,
        dtype_of_name("I8"@) == SafeTensorDtype::I8,
        dtype_of_name("F8_E5M2"@) == SafeTensorDtype::F8_E5M2,
        dtype_of_name("F8_E4M3"@) == SafeTensorDtype::F8_E4M3,
        dtype_of_name("I16"@) == SafeTensorDtype::I16,
        dtype_of_name("U16"@) == SafeTensorDtype::U16,
        dtype_of_name("F16"@) == SafeTensorDtype::F16,
        dtype_of_name("BF16"@) == SafeTensorDtype::BF16,
        dtype_of_name("I32"@) == SafeTensorDtype::I32,
        dtype_of_name("U32"@) == SafeTensorDtype::U32,
        dtype_of_name("F32"@) == SafeTensorDtype::F32,
        dtype_of_name("F64"@) == SafeTensorDtype::F64,
        dtype_of_name("I64"@) == SafeTensorDtype::I64,
        dtype_of_name("U64"@) == SafeTensorDtype::U64,
        match dtype_of_name(name) {
            SafeTensorDtype::BOOL => name == "BOOL"@,
            SafeTensorDtype::U8 => name == "U8"@,
            SafeTensorDtype::I8 => name == "I8"@,
            SafeTensorDtype::F8_E5M2 => name == "F8_E5M2"@,
            SafeTensorDtype::F8_E4M3 => name == "F8_E4M3"@,
            SafeTensorDtype::I16 => name == "I16"@,
            SafeTensorDtype::U16 => name == "U16"@,
            SafeTensorDtype::F16 => name == "F16"@,
            SafeTensorDtype::BF16 => name == "BF16"@,
            SafeTensorDtype::I32 => name == "I32"@,
            SafeTensorDtype::U32 => name == "U32"@,
            SafeTensorDtype::F32 => name == "F32"@,
            SafeTensorDtype::F64 => name == "F64"@,
            SafeTensorDtype::I64 => name == "I64"@,
            SafeTensorDtype::U64 => name == "U64"@,
            SafeTensorDtype::Unknown => true,
        },
{
    reveal_strlit("BOOL");
    reveal_strlit("U8");
    reveal_strlit("I8");
    reveal_strlit("F8_E5M2");
    reveal_strlit("F8_E4M3");
    reveal_strlit("I16");
    reveal_strlit("U16");
    reveal_strlit("F16");
    reveal_strlit("BF16");
    reveal_strlit("I32");
    reveal_strlit("U32");
    reveal_strlit("F32");
    reveal_strlit("F64");
    reveal_strlit("I64");
    reveal_strlit("U64");
    assert("F8_E5M2"@[4] != "F8_E4M3"@[4]);
    assert("U8"@[0] != "I8"@[0]);
    assert("BOOL"@[1] != "BF16"@[1]);
    assert("I16"@[0] == 'I' && "I16"@[1] == '1');
    assert("U16"@[0] == 'U' && "U16"@[1] == '1');
    assert("F16"@[0] == 'F' && "F16"@[1] == '1');
    assert("I32"@[0] == 'I' && "I32"@[1] == '3');
    assert("U32"@[0] == 'U' && "U32"@[1] == '3');
    assert("F32"@[0] == 'F' && "F32"@[1] == '3');
    assert("F64"@[0] == 'F' && "F64"@[1] == '6');
    assert("I64"@[0] == 'I' && "I64"@[1] == '6');
    assert("U64"@[0] == 'U' && "U64"@[1] == '6');
}

/// A tensor is what its parts say, in whatever form it is held.
pub proof fn law_tensor_parts(view: SafeTensorView<'_>, named: NamedView<'_>)
    ensures
        view@.dtype == view.dtype,
        view@.shape == view.shape@,
        view@.data == view.data@,
        named.content().dtype == dtype_of_name(named.dtype@),
        named.content().shape == named.shape@,
        named.content().data == named.data@,
{
}

/// Tensors with their names are those of the entries, in order.
pub proof fn law_tensors_in_order(
    entries: Seq<(String, SafeTensorView<'_>)>,
    named: Seq<(String, NamedView<'_>)>,
    i: int,
)
    ensures
        tensor_contents(entries).len() == entries.len(),
        named_contents(named).len() == named.len(),
        0 <= i < entries.len() ==> tensor_contents(entries)[i].0 == entries[i].0@
            && tensor_contents(entries)[i].1 == entries[i].1@,
        0 <= i < named.len() ==> named_contents(named)[i].0 == named[i].0@ && named_contents(
            named,
        )[i].1 == named[i].1.content(),
{
}

/// What each error of loading says: what went wrong, and with which file.
pub proof fn law_load_error_texts(path: String, cause: String)
    ensures
        (LoadError::NotFound { path }).text() == "Safetensors file not found: "@ + path@,
        (LoadError::OpenFailed { path, cause }).text() == "Failed to open file: "@ + path@,
        (LoadError::ReadFailed { path, cause }).text() == "Failed to read file content: "@ + path@,
        (LoadError::InvalidFormat { path, cause }).text()
            == "Failed initial validation of safetensors format in: "@ + path@,
        (TensorError::InvalidHeader { cause }).text()
            == "Failed to deserialize SafeTensors header from buffer"@,
        (TensorError::NotFound { name: path }).text() == "Failed to find tensor named '"@ + (path@
            + "'"@),
{
    let a = "Failed to find tensor named '"@;
    assert(a + path@ + "'"@ =~= a + (path@ + "'"@));
}

/// The message of every error of loading ends with the path, so that the path stands in it.
pub proof fn law_load_error_names_file(e: LoadError)
    ensures
        ({
            let path = match e {
                LoadError::NotFound { path } => path,
                LoadError::OpenFailed { path, .. } => path,
                LoadError::ReadFailed { path, .. } => path,
                LoadError::InvalidFormat { path, .. } => path,
            };
            text::occurs_in(path@, e.text())
        }),
{
    let path = match e {
        LoadError::NotFound { path } => path,
        LoadError::OpenFailed { path, .. } => path,
        LoadError::ReadFailed { path, .. } => path,
        LoadError::InvalidFormat { path, .. } => path,
    };
    let t = e.text();
    let i = t.len() - path@.len();
    assert(t.subrange(i, i + path@.len()) =~= path@);
}

/// The tensors of a loaded file are those that its bytes decode to.
pub proof fn law_model_content(model: SafeTensorsModel, name: Seq<char>)
    requires
        decoded_tensors(model.bytes()) is Ok,
    ensures
        ({
            let tensors = decoded_tensors(model.bytes())->Ok_0;
            &&& model.content().contains_key(name) <==> tensors.contains_key(name)
            &&& tensors.contains_key(name) ==> model.content()[name] == tensors[name]
        }),
{
}

/// Which files can be loaded, and which faults may be reported of the others.
pub proof fn law_faults(bytes: Seq<u8>, cause: Seq<char>)
    ensures
        loadable(bytes) <==> decoded_tensors(bytes) is Ok && safetensors_header::size_fits(bytes),
        safetensors_header::size_fits(bytes) && may_report(bytes, cause) ==> decoded_tensors(bytes)
            is Err && decoded_tensors(bytes)->Err_0.contains(cause),
        !safetensors_header::size_fits(bytes) ==> (may_report(bytes, cause) <==> cause
            == "MetadataIncompleteBuffer"@),
{
}

} // verus!
