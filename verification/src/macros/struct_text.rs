//! The texts that the code of structs is put together from.
use vstd::prelude::*;

verus! {

/// The width of the codec of a type (`native`) for a storage type (`storage`).
pub open spec fn codec_width_code(native: Seq<char>, storage: Seq<char>) -> Seq<char> {
    "<"@ + native + " as BitCodec<"@ + storage + ">>::BITS"@
}

/// Renders [`codec_width_code`].
pub fn render_codec_width_code(native: &str, storage: &str) -> (r: String)
    ensures
        r@ == codec_width_code(native@, storage@),
{
    let mut r = "<".to_owned();
    r.append(native);
    r.append(" as BitCodec<");
    r.append(storage);
    r.append(">>::BITS");
    r
}

/// So many (`len`) times a width (`width`).
pub open spec fn elements_width_code(len: Seq<char>, width: Seq<char>) -> Seq<char> {
    "("@ + len + ") * "@ + width
}

/// Renders [`elements_width_code`].
pub fn render_elements_width_code(len: &str, width: &str) -> (r: String)
    ensures
        r@ == elements_width_code(len@, width@),
{
    let mut r = "(".to_owned();
    r.append(len);
    r.append(") * ");
    r.append(width);
    r
}

/// So many (`len`) times a distance (`stride`).
pub open spec fn steps_width_code(len: Seq<char>, stride: Seq<char>) -> Seq<char> {
    "("@ + len + ") * ("@ + stride + ")"@
}

/// Renders [`steps_width_code`].
pub fn render_steps_width_code(len: &str, stride: &str) -> (r: String)
    ensures
        r@ == steps_width_code(len@, stride@),
{
    let mut r = "(".to_owned();
    r.append(len);
    r.append(") * (");
    r.append(stride);
    r.append(")");
    r
}

/// An expression (`value`) as one operand.
pub open spec fn operand_code(value: Seq<char>) -> Seq<char> {
    "("@ + value + ")"@
}

/// Renders [`operand_code`].
pub fn render_operand_code(value: &str) -> (r: String)
    ensures
        r@ == operand_code(value@),
{
    let mut r = "(".to_owned();
    r.append(value);
    r.append(")");
    r
}

/// Accessors with attributes (`attrs`) and a visibility (`vis`) for a field (`name`) that is an
/// array of so many (`len`) elements (`native`) in a storage type (`storage`) at a distance
/// Accessors with attributes (`attrs`) and a visibility (`vis`) for a field (`name`) of a type
/// Accessors with attributes (`attrs`) and a visibility (`vis`) for what a field (`name`) stores,

/// A method with attributes and a visibility, of which the name, the parameters and the result are
/// in `signature`.
pub open spec fn method_code(
    attrs: Seq<char>,
    vis: Seq<char>,
    signature: Seq<char>,
    body: Seq<char>,
) -> Seq<char> {
    "\n    "@ + attrs + " "@ + vis + " fn "@ + signature + " {\n        "@ + body + "\n    }\n"@
}

/// Renders [`method_code`].
pub fn render_method_code(attrs: &str, vis: &str, signature: &str, body: &str) -> (r: String)
    ensures
        r@ == method_code(attrs@, vis@, signature@, body@),
{
    let mut r = "\n    ".to_owned();
    r.append(attrs);
    r.append(" ");
    r.append(vis);
    r.append(" fn ");
    r.append(signature);
    r.append(" {\n        ");
    r.append(body);
    r.append("\n    }\n");
    r
}

/// Accessors for a field that is an array: its elements lie at a distance in the field from its
/// first bit on.
pub open spec fn field_views_code(
    attrs: Seq<char>,
    vis: Seq<char>,
    name: Seq<char>,
    native: Seq<char>,
    storage: Seq<char>,
    len: Seq<char>,
    stride: Seq<char>,
    writer: Seq<char>,
) -> Seq<char> {
    let reads = method_code(
        attrs,
        vis,
        name + "(&self) -> BitArrayView<'_, "@ + native + ", "@ + storage + ">"@,
        "BitArrayView::new(self."@ + name + ".as_bytes(), 0, "@ + len + ", "@ + stride + ")"@,
    );
    let writes = method_code(
        attrs,
        vis,
        writer + "(&mut self) -> BitArrayViewMut<'_, "@ + native + ", "@ + storage + ">"@,
        "BitArrayViewMut::new(self."@ + name + ".as_mut_bytes(), 0, "@ + len + ", "@ + stride
            + ")"@,
    );
    reads + writes
}

/// Renders [`field_views_code`].
pub fn render_field_views_code(
    attrs: &str,
    vis: &str,
    name: &str,
    native: &str,
    storage: &str,
    len: &str,
    stride: &str,
    writer: &str,
) -> (r: String)
    ensures
        r@ == field_views_code(attrs@, vis@, name@, native@, storage@, len@, stride@, writer@),
{
    let mut signature = name.to_owned();
    signature.append("(&self) -> BitArrayView<'_, ");
    signature.append(native);
    signature.append(", ");
    signature.append(storage);
    signature.append(">");
    let mut body = "BitArrayView::new(self.".to_owned();
    body.append(name);
    body.append(".as_bytes(), 0, ");
    body.append(len);
    body.append(", ");
    body.append(stride);
    body.append(")");
    let reads = render_method_code(attrs, vis, signature.as_str(), body.as_str());
    let mut signature = writer.to_owned();
    signature.append("(&mut self) -> BitArrayViewMut<'_, ");
    signature.append(native);
    signature.append(", ");
    signature.append(storage);
    signature.append(">");
    let mut body = "BitArrayViewMut::new(self.".to_owned();
    body.append(name);
    body.append(".as_mut_bytes(), 0, ");
    body.append(len);
    body.append(", ");
    body.append(stride);
    body.append(")");
    let writes = render_method_code(attrs, vis, signature.as_str(), body.as_str());
    reads.concat(writes.as_str())
}

/// Accessors for the value of a field, which lies in its storage from the first bit on.
pub open spec fn field_value_code(
    attrs: Seq<char>,
    vis: Seq<char>,
    name: Seq<char>,
    native: Seq<char>,
    storage: Seq<char>,
    writer: Seq<char>,
) -> Seq<char> {
    let reads = method_code(
        attrs,
        vis,
        name + "(&self) -> <"@ + native + " as BitCodec<"@ + storage + ">>::Read"@,
        "<"@ + native + " as BitCodec<"@ + storage + ">>::read(self."@ + name
            + ".as_bytes(), 0)"@,
    );
    let writes = method_code(
        attrs,
        vis,
        writer + "(&mut self, val: "@ + native + ")"@,
        "<"@ + native + " as BitCodec<"@ + storage + ">>::write_bits(&val, self."@ + name
            + ".as_mut_bytes(), 0);"@,
    );
    reads + writes
}

/// Renders [`field_value_code`].
pub fn render_field_value_code(
    attrs: &str,
    vis: &str,
    name: &str,
    native: &str,
    storage: &str,
    writer: &str,
) -> (r: String)
    ensures
        r@ == field_value_code(attrs@, vis@, name@, native@, storage@, writer@),
{
    let mut signature = name.to_owned();
    signature.append("(&self) -> <");
    signature.append(native);
    signature.append(" as BitCodec<");
    signature.append(storage);
    signature.append(">>::Read");
    let mut body = "<".to_owned();
    body.append(native);
    body.append(" as BitCodec<");
    body.append(storage);
    body.append(">>::read(self.");
    body.append(name);
    body.append(".as_bytes(), 0)");
    let reads = render_method_code(attrs, vis, signature.as_str(), body.as_str());
    let mut signature = writer.to_owned();
    signature.append("(&mut self, val: ");
    signature.append(native);
    signature.append(")");
    let mut body = "<".to_owned();
    body.append(native);
    body.append(" as BitCodec<");
    body.append(storage);
    body.append(">>::write_bits(&val, self.");
    body.append(name);
    body.append(".as_mut_bytes(), 0);");
    let writes = render_method_code(attrs, vis, signature.as_str(), body.as_str());
    reads.concat(writes.as_str())
}

/// Accessors for what a field stores.
pub open spec fn field_raw_code(
    attrs: Seq<char>,
    vis: Seq<char>,
    name: Seq<char>,
    storage: Seq<char>,
    getter: Seq<char>,
    setter: Seq<char>,
) -> Seq<char> {
    let reads = method_code(
        attrs,
        vis,
        getter + "(&self) -> "@ + storage,
        "self."@ + name,
    );
    let writes = method_code(
        attrs,
        vis,
        setter + "(&mut self, val: "@ + storage + ")"@,
        "self."@ + name + " = val;"@,
    );
    reads + writes
}

/// Renders [`field_raw_code`].
pub fn render_field_raw_code(
    attrs: &str,
    vis: &str,
    name: &str,
    storage: &str,
    getter: &str,
    setter: &str,
) -> (r: String)
    ensures
        r@ == field_raw_code(attrs@, vis@, name@, storage@, getter@, setter@),
{
    let mut signature = getter.to_owned();
    signature.append("(&self) -> ");
    signature.append(storage);
    let mut body = "self.".to_owned();
    body.append(name);
    let reads = render_method_code(attrs, vis, signature.as_str(), body.as_str());
    let mut signature = setter.to_owned();
    signature.append("(&mut self, val: ");
    signature.append(storage);
    signature.append(")");
    let mut body = "self.".to_owned();
    body.append(name);
    body.append(" = val;");
    let writes = render_method_code(attrs, vis, signature.as_str(), body.as_str());
    reads.concat(writes.as_str())
}

/// Accessors for the value of a packed field. The first checks the offset (`check`) and reads
/// (`read`); the second writes (`write`).
pub open spec fn packed_value_code(
    attrs: Seq<char>,
    vis: Seq<char>,
    name: Seq<char>,
    native: Seq<char>,
    storage: Seq<char>,
    check: Seq<char>,
    read: Seq<char>,
    writer: Seq<char>,
    write: Seq<char>,
) -> Seq<char> {
    let reads = method_code(
        attrs,
        vis,
        name + "(&self) -> <"@ + native + " as BitCodec<"@ + storage + ">>::Read"@,
        check + "\n        "@ + read,
    );
    let writes = method_code(
        attrs,
        vis,
        writer + "(&mut self, val: "@ + native + ")"@,
        write,
    );
    reads + writes
}

/// Renders [`packed_value_code`].
pub fn render_packed_value_code(
    attrs: &str,
    vis: &str,
    name: &str,
    native: &str,
    storage: &str,
    check: &str,
    read: &str,
    writer: &str,
    write: &str,
) -> (r: String)
    ensures
        r@ == packed_value_code(
            attrs@,
            vis@,
            name@,
            native@,
            storage@,
            check@,
            read@,
            writer@,
            write@,
        ),
{
    let mut signature = name.to_owned();
    signature.append("(&self) -> <");
    signature.append(native);
    signature.append(" as BitCodec<");
    signature.append(storage);
    signature.append(">>::Read");
    let mut body = check.to_owned();
    body.append("\n        ");
    body.append(read);
    let reads = render_method_code(attrs, vis, signature.as_str(), body.as_str());
    let mut signature = writer.to_owned();
    signature.append("(&mut self, val: ");
    signature.append(native);
    signature.append(")");
    let body = write;
    let writes = render_method_code(attrs, vis, signature.as_str(), body);
    reads.concat(writes.as_str())
}

/// Accessors for a packed field that is absent while its bits are clear. The first checks the
/// offset (`check`). The field lies in another (`container`) at an offset.
pub open spec fn packed_option_code(
    attrs: Seq<char>,
    vis: Seq<char>,
    name: Seq<char>,
    native: Seq<char>,
    storage: Seq<char>,
    check: Seq<char>,
    container: Seq<char>,
    offset: Seq<char>,
    writer: Seq<char>,
) -> Seq<char> {
    let reads = method_code(
        attrs,
        vis,
        name + "(&self) -> Option<"@ + native + ">"@,
        check + "\n        ::zorua::views::read_zeroed_option::<"@ + native + ", "@ + storage
            + ">(\n            self."@ + container + ".as_bytes(), "@ + offset + ", <"@ + native
            + " as BitCodec<"@ + storage + ">>::BITS)"@,
    );
    let writes = method_code(
        attrs,
        vis,
        writer + "(&mut self, val: Option<"@ + native + ">)"@,
        "::zorua::views::write_zeroed_option::<"@ + native + ", "@ + storage + ">(self."@
            + container + ".as_mut_bytes(), "@ + offset + ", val);"@,
    );
    reads + writes
}

/// Renders [`packed_option_code`].
pub fn render_packed_option_code(
    attrs: &str,
    vis: &str,
    name: &str,
    native: &str,
    storage: &str,
    check: &str,
    container: &str,
    offset: &str,
    writer: &str,
) -> (r: String)
    ensures
        r@ == packed_option_code(
            attrs@,
            vis@,
            name@,
            native@,
            storage@,
            check@,
            container@,
            offset@,
            writer@,
        ),
{
    let mut signature = name.to_owned();
    signature.append("(&self) -> Option<");
    signature.append(native);
    signature.append(">");
    let mut body = check.to_owned();
    body.append("\n        ::zorua::views::read_zeroed_option::<");
    body.append(native);
    body.append(", ");
    body.append(storage);
    body.append(">(\n            self.");
    body.append(container);
    body.append(".as_bytes(), ");
    body.append(offset);
    body.append(", <");
    body.append(native);
    body.append(" as BitCodec<");
    body.append(storage);
    body.append(">>::BITS)");
    let reads = render_method_code(attrs, vis, signature.as_str(), body.as_str());
    let mut signature = writer.to_owned();
    signature.append("(&mut self, val: Option<");
    signature.append(native);
    signature.append(">)");
    let mut body = "::zorua::views::write_zeroed_option::<".to_owned();
    body.append(native);
    body.append(", ");
    body.append(storage);
    body.append(">(self.");
    body.append(container);
    body.append(".as_mut_bytes(), ");
    body.append(offset);
    body.append(", val);");
    let writes = render_method_code(attrs, vis, signature.as_str(), body.as_str());
    reads.concat(writes.as_str())
}

/// Accessors for a packed field that is an array. The first checks the offset (`check`). The field
/// lies in another (`container`) at an offset.
pub open spec fn packed_views_code(
    attrs: Seq<char>,
    vis: Seq<char>,
    name: Seq<char>,
    native: Seq<char>,
    storage: Seq<char>,
    len: Seq<char>,
    stride: Seq<char>,
    check: Seq<char>,
    container: Seq<char>,
    offset: Seq<char>,
    writer: Seq<char>,
) -> Seq<char> {
    let reads = method_code(
        attrs,
        vis,
        name + "(&self) -> BitArrayView<'_, "@ + native + ", "@ + storage + ">"@,
        check + "\n        BitArrayView::new(self."@ + container + ".as_bytes(), "@ + offset
            + ", "@ + len + ", "@ + stride + ")"@,
    );
    let writes = method_code(
        attrs,
        vis,
        writer + "(&mut self) -> BitArrayViewMut<'_, "@ + native + ", "@ + storage + ">"@,
        "BitArrayViewMut::new(self."@ + container + ".as_mut_bytes(), "@ + offset + ", "@
            + len + ", "@ + stride + ")"@,
    );
    reads + writes
}

/// Renders [`packed_views_code`].
pub fn render_packed_views_code(
    attrs: &str,
    vis: &str,
    name: &str,
    native: &str,
    storage: &str,
    len: &str,
    stride: &str,
    check: &str,
    container: &str,
    offset: &str,
    writer: &str,
) -> (r: String)
    ensures
        r@ == packed_views_code(
            attrs@,
            vis@,
            name@,
            native@,
            storage@,
            len@,
            stride@,
            check@,
            container@,
            offset@,
            writer@,
        ),
{
    let mut signature = name.to_owned();
    signature.append("(&self) -> BitArrayView<'_, ");
    signature.append(native);
    signature.append(", ");
    signature.append(storage);
    signature.append(">");
    let mut body = check.to_owned();
    body.append("\n        BitArrayView::new(self.");
    body.append(container);
    body.append(".as_bytes(), ");
    body.append(offset);
    body.append(", ");
    body.append(len);
    body.append(", ");
    body.append(stride);
    body.append(")");
    let reads = render_method_code(attrs, vis, signature.as_str(), body.as_str());
    let mut signature = writer.to_owned();
    signature.append("(&mut self) -> BitArrayViewMut<'_, ");
    signature.append(native);
    signature.append(", ");
    signature.append(storage);
    signature.append(">");
    let mut body = "BitArrayViewMut::new(self.".to_owned();
    body.append(container);
    body.append(".as_mut_bytes(), ");
    body.append(offset);
    body.append(", ");
    body.append(len);
    body.append(", ");
    body.append(stride);
    body.append(")");
    let writes = render_method_code(attrs, vis, signature.as_str(), body.as_str());
    reads.concat(writes.as_str())
}

/// As for an array, where each element is absent while its bits are clear.
pub open spec fn packed_option_views_code(
    attrs: Seq<char>,
    vis: Seq<char>,
    name: Seq<char>,
    native: Seq<char>,
    storage: Seq<char>,
    len: Seq<char>,
    stride: Seq<char>,
    check: Seq<char>,
    container: Seq<char>,
    offset: Seq<char>,
    writer: Seq<char>,
) -> Seq<char> {
    let reads = method_code(
        attrs,
        vis,
        name + "(&self) -> ZeroedOptionBitArrayView<'_, "@ + native + ", "@ + storage + ">"@,
        check + "\n        ZeroedOptionBitArrayView::new(\n            self."@ + container
            + ".as_bytes(), "@ + offset + ", "@ + len + ", "@ + stride + ", <"@ + native
            + " as BitCodec<"@ + storage + ">>::BITS)"@,
    );
    let writes = method_code(
        attrs,
        vis,
        writer + "(&mut self) -> ZeroedOptionBitArrayViewMut<'_, "@ + native + ", "@ + storage
            + ">"@,
        "ZeroedOptionBitArrayViewMut::new(\n            self."@ + container
            + ".as_mut_bytes(), "@ + offset + ", "@ + len + ", "@ + stride + ", <"@ + native
            + " as BitCodec<"@ + storage + ">>::BITS)"@,
    );
    reads + writes
}

/// Renders [`packed_option_views_code`].
pub fn render_packed_option_views_code(
    attrs: &str,
    vis: &str,
    name: &str,
    native: &str,
    storage: &str,
    len: &str,
    stride: &str,
    check: &str,
    container: &str,
    offset: &str,
    writer: &str,
) -> (r: String)
    ensures
        r@ == packed_option_views_code(
            attrs@,
            vis@,
            name@,
            native@,
            storage@,
            len@,
            stride@,
            check@,
            container@,
            offset@,
            writer@,
        ),
{
    let mut signature = name.to_owned();
    signature.append("(&self) -> ZeroedOptionBitArrayView<'_, ");
    signature.append(native);
    signature.append(", ");
    signature.append(storage);
    signature.append(">");
    let mut body = check.to_owned();
    body.append("\n        ZeroedOptionBitArrayView::new(\n            self.");
    body.append(container);
    body.append(".as_bytes(), ");
    body.append(offset);
    body.append(", ");
    body.append(len);
    body.append(", ");
    body.append(stride);
    body.append(", <");
    body.append(native);
    body.append(" as BitCodec<");
    body.append(storage);
    body.append(">>::BITS)");
    let reads = render_method_code(attrs, vis, signature.as_str(), body.as_str());
    let mut signature = writer.to_owned();
    signature.append("(&mut self) -> ZeroedOptionBitArrayViewMut<'_, ");
    signature.append(native);
    signature.append(", ");
    signature.append(storage);
    signature.append(">");
    let mut body = "ZeroedOptionBitArrayViewMut::new(\n            self.".to_owned();
    body.append(container);
    body.append(".as_mut_bytes(), ");
    body.append(offset);
    body.append(", ");
    body.append(len);
    body.append(", ");
    body.append(stride);
    body.append(", <");
    body.append(native);
    body.append(" as BitCodec<");
    body.append(storage);
    body.append(">>::BITS)");
    let writes = render_method_code(attrs, vis, signature.as_str(), body.as_str());
    reads.concat(writes.as_str())
}

/// Accessors for what a packed field stores. The field lies in another (`container`) at an offset.
pub open spec fn packed_raw_code(
    attrs: Seq<char>,
    vis: Seq<char>,
    storage: Seq<char>,
    getter: Seq<char>,
    setter: Seq<char>,
    container: Seq<char>,
    offset: Seq<char>,
) -> Seq<char> {
    let reads = method_code(
        attrs,
        vis,
        getter + "(&self) -> "@ + storage,
        "<"@ + storage + " as BitCodec<"@ + storage + ">>::read_bits(self."@ + container
            + ".as_bytes(), "@ + offset + ")"@,
    );
    let writes = method_code(
        attrs,
        vis,
        setter + "(&mut self, val: "@ + storage + ")"@,
        "<"@ + storage + " as BitCodec<"@ + storage + ">>::write_bits(&val, self."@
            + container + ".as_mut_bytes(), "@ + offset + ");"@,
    );
    reads + writes
}

/// Renders [`packed_raw_code`].
pub fn render_packed_raw_code(
    attrs: &str,
    vis: &str,
    storage: &str,
    getter: &str,
    setter: &str,
    container: &str,
    offset: &str,
) -> (r: String)
    ensures
        r@ == packed_raw_code(attrs@, vis@, storage@, getter@, setter@, container@, offset@),
{
    let mut signature = getter.to_owned();
    signature.append("(&self) -> ");
    signature.append(storage);
    let mut body = "<".to_owned();
    body.append(storage);
    body.append(" as BitCodec<");
    body.append(storage);
    body.append(">>::read_bits(self.");
    body.append(container);
    body.append(".as_bytes(), ");
    body.append(offset);
    body.append(")");
    let reads = render_method_code(attrs, vis, signature.as_str(), body.as_str());
    let mut signature = setter.to_owned();
    signature.append("(&mut self, val: ");
    signature.append(storage);
    signature.append(")");
    let mut body = "<".to_owned();
    body.append(storage);
    body.append(" as BitCodec<");
    body.append(storage);
    body.append(">>::write_bits(&val, self.");
    body.append(container);
    body.append(".as_mut_bytes(), ");
    body.append(offset);
    body.append(");");
    let writes = render_method_code(attrs, vis, signature.as_str(), body.as_str());
    reads.concat(writes.as_str())
}

/// The assertion that an explicit offset (`explicit`) is where the field starts (`offset`).
pub open spec fn offset_check_code(explicit: Seq<char>, offset: Seq<char>) -> Seq<char> {
    "const { assert!(("@ + explicit + ") == "@ + offset
        + ", \"explicit bit offset does not match sequential layout\") };"@
}

/// Renders [`offset_check_code`].
pub fn render_offset_check_code(explicit: &str, offset: &str) -> (r: String)
    ensures
        r@ == offset_check_code(explicit@, offset@),
{
    let mut r = "const { assert!((".to_owned();
    r.append(explicit);
    r.append(") == ");
    r.append(offset);
    r.append(", \"explicit bit offset does not match sequential layout\") };");
    r
}

/// Accessors with attributes (`attrs`) and a visibility (`vis`) for a packed field (`name`) of a
/// type (`native`) in a storage type (`storage`). The first checks the offset (`check`) and reads
/// Reading a value of a type (`native`) in a storage type (`storage`) from a field (`container`) at
/// an offset (`offset`).
pub open spec fn packed_read_code(
    native: Seq<char>,
    storage: Seq<char>,
    container: Seq<char>,
    offset: Seq<char>,
) -> Seq<char> {
    "<"@ + native + " as BitCodec<"@ + storage + ">>::read(self."@ + container
        + ".as_bytes(), "@ + offset + ")"@
}

/// Renders [`packed_read_code`].
pub fn render_packed_read_code(
    native: &str,
    storage: &str,
    container: &str,
    offset: &str,
) -> (r: String)
    ensures
        r@ == packed_read_code(native@, storage@, container@, offset@),
{
    let mut r = "<".to_owned();
    r.append(native);
    r.append(" as BitCodec<");
    r.append(storage);
    r.append(">>::read(self.");
    r.append(container);
    r.append(".as_bytes(), ");
    r.append(offset);
    r.append(")");
    r
}

/// Writing a value of a type (`native`) in a storage type (`storage`) to a field (`container`) at
/// an offset (`offset`).
pub open spec fn packed_write_code(
    native: Seq<char>,
    storage: Seq<char>,
    container: Seq<char>,
    offset: Seq<char>,
) -> Seq<char> {
    "<"@ + native + " as BitCodec<"@ + storage + ">>::write_bits(&val, self."@ + container
        + ".as_mut_bytes(), "@ + offset + ");"@
}

/// Renders [`packed_write_code`].
pub fn render_packed_write_code(
    native: &str,
    storage: &str,
    container: &str,
    offset: &str,
) -> (r: String)
    ensures
        r@ == packed_write_code(native@, storage@, container@, offset@),
{
    let mut r = "<".to_owned();
    r.append(native);
    r.append(" as BitCodec<");
    r.append(storage);
    r.append(">>::write_bits(&val, self.");
    r.append(container);
    r.append(".as_mut_bytes(), ");
    r.append(offset);
    r.append(");");
    r
}

/// Reading through an accessor (`getter`).
pub open spec fn delegated_read_code(getter: Seq<char>) -> Seq<char> {
    "self."@ + getter + "()"@
}

/// Renders [`delegated_read_code`].
pub fn render_delegated_read_code(getter: &str) -> (r: String)
    ensures
        r@ == delegated_read_code(getter@),
{
    let mut r = "self.".to_owned();
    r.append(getter);
    r.append("()");
    r
}

/// Writing through an accessor (`setter`).
pub open spec fn delegated_write_code(setter: Seq<char>) -> Seq<char> {
    "self."@ + setter + "(val);"@
}

/// Renders [`delegated_write_code`].
pub fn render_delegated_write_code(setter: &str) -> (r: String)
    ensures
        r@ == delegated_write_code(setter@),
{
    let mut r = "self.".to_owned();
    r.append(setter);
    r.append("(val);");
    r
}

/// Accessors with attributes (`attrs`) and a visibility (`vis`) for a packed field (`name`) of a
/// type (`native`) in a storage type (`storage`) that is absent while its bits are clear. The first
/// checks the offset (`check`); the second is named `writer`. The field lies in another
/// Accessors with attributes (`attrs`) and a visibility (`vis`) for a packed field (`name`) that is
/// an array of so many (`len`) elements (`native`) in a storage type (`storage`) at a distance
/// (`stride`). The first checks the offset (`check`); the second is named `writer`. The field lies
/// Accessors with attributes (`attrs`) and a visibility (`vis`) for what a packed field stores, of
/// the storage type (`storage`); they are named `getter` and `setter`. The field lies in another
/// The assertion that a number of bits (`bits`) is the width of a storage type (`storage`).
pub open spec fn coverage_code(bits: Seq<char>, storage: Seq<char>) -> Seq<char> {
    "assert!(\n    "@ + bits + " == <"@ + storage + " as BitCodec<"@ + storage
        + ">>::BITS,\n    \"bitfield does not account for every bit in its storage\"\n);"@
}

/// Renders [`coverage_code`].
pub fn render_coverage_code(bits: &str, storage: &str) -> (r: String)
    ensures
        r@ == coverage_code(bits@, storage@),
{
    let mut r = "assert!(\n    ".to_owned();
    r.append(bits);
    r.append(" == <");
    r.append(storage);
    r.append(" as BitCodec<");
    r.append(storage);
    r.append(">>::BITS,\n    \"bitfield does not account for every bit in its storage\"\n);");
    r
}

/// An assertion (`assertion`) at the top level.
pub open spec fn claim_code(assertion: Seq<char>) -> Seq<char> {
    "const _: () = { "@ + assertion + " };"@
}

/// Renders [`claim_code`].
pub fn render_claim_code(assertion: &str) -> (r: String)
    ensures
        r@ == claim_code(assertion@),
{
    let mut r = "const _: () = { ".to_owned();
    r.append(assertion);
    r.append(" };");
    r
}

/// An assertion (`assertion`) as an associated constant (`name`).
pub open spec fn named_assertion_code(name: Seq<char>, assertion: Seq<char>) -> Seq<char> {
    "const "@ + name + ": () = { "@ + assertion + " };"@
}

/// Renders [`named_assertion_code`].
pub fn render_named_assertion_code(name: &str, assertion: &str) -> (r: String)
    ensures
        r@ == named_assertion_code(name@, assertion@),
{
    let mut r = "const ".to_owned();
    r.append(name);
    r.append(": () = { ");
    r.append(assertion);
    r.append(" };");
    r
}

/// A field (`name`) of so many unused bytes (`len`).
pub open spec fn padding_field_code(name: Seq<char>, len: Seq<char>) -> Seq<char> {
    name + ": [u8; "@ + len + "], "@
}

/// Renders [`padding_field_code`].
pub fn render_padding_field_code(name: &str, len: &str) -> (r: String)
    ensures
        r@ == padding_field_code(name@, len@),
{
    let mut r = name.to_owned();
    r.append(": [u8; ");
    r.append(len);
    r.append("], ");
    r
}

/// A field with attributes (`attrs`), a visibility (`vis`), a name (`name`) and a type (`storage`).
pub open spec fn value_field_code(
    attrs: Seq<char>,
    vis: Seq<char>,
    name: Seq<char>,
    storage: Seq<char>,
) -> Seq<char> {
    attrs + " "@ + vis + " "@ + name + ": "@ + storage + ", "@
}

/// Renders [`value_field_code`].
pub fn render_value_field_code(attrs: &str, vis: &str, name: &str, storage: &str) -> (r: String)
    ensures
        r@ == value_field_code(attrs@, vis@, name@, storage@),
{
    let mut r = attrs.to_owned();
    r.append(" ");
    r.append(vis);
    r.append(" ");
    r.append(name);
    r.append(": ");
    r.append(storage);
    r.append(", ");
    r
}

/// An attribute that derives traits (`names`).
pub open spec fn derives_code(names: Seq<char>) -> Seq<char> {
    "#[derive("@ + names + ")]"@
}

/// Renders [`derives_code`].
pub fn render_derives_code(names: &str) -> (r: String)
    ensures
        r@ == derives_code(names@),
{
    let mut r = "#[derive(".to_owned();
    r.append(names);
    r.append(")]");
    r
}

/// A struct with a visibility, a name, generic parameters (`generics`) and fields, and its
/// accessors. Its generic parameters are `header` in the header of an impl and `arguments` as
/// arguments.
pub open spec fn declaration_code(
    vis: Seq<char>,
    name: Seq<char>,
    generics: Seq<char>,
    fields: Seq<char>,
    header: Seq<char>,
    arguments: Seq<char>,
    accessors: Seq<char>,
) -> Seq<char> {
    vis + " struct "@ + name + " "@ + generics + " { "@ + fields + " }\n\nimpl "@ + header + " "@
        + name + " "@ + arguments + " { "@ + accessors + " }\n\n"@
}

/// Renders [`declaration_code`].
pub fn render_declaration_code(
    vis: &str,
    name: &str,
    generics: &str,
    fields: &str,
    header: &str,
    arguments: &str,
    accessors: &str,
) -> (r: String)
    ensures
        r@ == declaration_code(
            vis@,
            name@,
            generics@,
            fields@,
            header@,
            arguments@,
            accessors@,
        ),
{
    let mut r = vis.to_owned();
    r.append(" struct ");
    r.append(name);
    r.append(" ");
    r.append(generics);
    r.append(" { ");
    r.append(fields);
    r.append(" }\n\nimpl ");
    r.append(header);
    r.append(" ");
    r.append(name);
    r.append(" ");
    r.append(arguments);
    r.append(" { ");
    r.append(accessors);
    r.append(" }\n\n");
    r
}

/// The bytes of a struct, which `zerocopy` knows.
pub open spec fn layout_impl_code(
    name: Seq<char>,
    header: Seq<char>,
    arguments: Seq<char>,
) -> Seq<char> {
    "impl "@ + header + " ::zorua::byte_repr::ByteLayout for "@ + name + " "@ + arguments
        + "\nwhere Self: FromBytes + IntoBytes + KnownLayout + Immutable + Unaligned {"@
        + method_code(
            ""@,
            ""@,
            "size_of() -> usize"@,
            "::core::mem::size_of::<Self>()"@,
        )
        + method_code(
            ""@,
            ""@,
            "new_zeroed() -> Self"@,
            "<Self as FromZeros>::new_zeroed()"@,
        )
        + method_code(
            ""@,
            ""@,
            "as_bytes(&self) -> &[u8]"@,
            "<Self as IntoBytes>::as_bytes(self)"@,
        )
        + method_code(
            ""@,
            ""@,
            "as_mut_bytes(&mut self) -> &mut [u8]"@,
            "<Self as IntoBytes>::as_mut_bytes(self)"@,
        )
        + method_code(
            ""@,
            ""@,
            "read_from_bytes(bytes: &[u8]) -> Option<Self>"@,
            "<Self as FromBytes>::read_from_bytes(bytes).ok()"@,
        )
        + "}\n\n"@
}

/// Renders [`layout_impl_code`].
pub fn render_layout_impl_code(name: &str, header: &str, arguments: &str) -> (r: String)
    ensures
        r@ == layout_impl_code(name@, header@, arguments@),
{
    let mut r = "impl ".to_owned();
    r.append(header);
    r.append(" ::zorua::byte_repr::ByteLayout for ");
    r.append(name);
    r.append(" ");
    r.append(arguments);
    r.append("\nwhere Self: FromBytes + IntoBytes + KnownLayout + Immutable + Unaligned {");
    let method = render_method_code(
        "",
        "",
        "size_of() -> usize",
        "::core::mem::size_of::<Self>()",
    );
    r.append(method.as_str());
    let method = render_method_code(
        "",
        "",
        "new_zeroed() -> Self",
        "<Self as FromZeros>::new_zeroed()",
    );
    r.append(method.as_str());
    let method = render_method_code(
        "",
        "",
        "as_bytes(&self) -> &[u8]",
        "<Self as IntoBytes>::as_bytes(self)",
    );
    r.append(method.as_str());
    let method = render_method_code(
        "",
        "",
        "as_mut_bytes(&mut self) -> &mut [u8]",
        "<Self as IntoBytes>::as_mut_bytes(self)",
    );
    r.append(method.as_str());
    let method = render_method_code(
        "",
        "",
        "read_from_bytes(bytes: &[u8]) -> Option<Self>",
        "<Self as FromBytes>::read_from_bytes(bytes).ok()",
    );
    r.append(method.as_str());
    r.append("}\n\n");
    r
}

/// The views of bytes as a struct, which `zerocopy` knows.
pub open spec fn view_impl_code(
    name: Seq<char>,
    header: Seq<char>,
    arguments: Seq<char>,
) -> Seq<char> {
    "impl "@ + header + " ::zorua::byte_repr::ByteView for "@ + name + " "@ + arguments
        + "\nwhere Self: FromBytes + IntoBytes + KnownLayout + Immutable + Unaligned {"@
        + method_code(
            ""@,
            ""@,
            "ref_from_bytes(bytes: &[u8]) -> Option<&Self>"@,
            "<Self as FromBytes>::ref_from_bytes(bytes).ok()"@,
        )
        + method_code(
            ""@,
            ""@,
            "mut_from_bytes(bytes: &mut [u8]) -> Option<&mut Self>"@,
            "<Self as FromBytes>::mut_from_bytes(bytes).ok()"@,
        )
        + method_code(
            ""@,
            ""@,
            "ref_from_prefix(bytes: &[u8]) -> Option<(&Self, &[u8])>"@,
            "<Self as FromBytes>::ref_from_prefix(bytes).ok()"@,
        )
        + method_code(
            ""@,
            ""@,
            "mut_from_prefix(bytes: &mut [u8]) -> Option<(&mut Self, &mut [u8])>"@,
            "<Self as FromBytes>::mut_from_prefix(bytes).ok()"@,
        )
        + "}\n\n"@
}

/// Renders [`view_impl_code`].
pub fn render_view_impl_code(name: &str, header: &str, arguments: &str) -> (r: String)
    ensures
        r@ == view_impl_code(name@, header@, arguments@),
{
    let mut r = "impl ".to_owned();
    r.append(header);
    r.append(" ::zorua::byte_repr::ByteView for ");
    r.append(name);
    r.append(" ");
    r.append(arguments);
    r.append("\nwhere Self: FromBytes + IntoBytes + KnownLayout + Immutable + Unaligned {");
    let method = render_method_code(
        "",
        "",
        "ref_from_bytes(bytes: &[u8]) -> Option<&Self>",
        "<Self as FromBytes>::ref_from_bytes(bytes).ok()",
    );
    r.append(method.as_str());
    let method = render_method_code(
        "",
        "",
        "mut_from_bytes(bytes: &mut [u8]) -> Option<&mut Self>",
        "<Self as FromBytes>::mut_from_bytes(bytes).ok()",
    );
    r.append(method.as_str());
    let method = render_method_code(
        "",
        "",
        "ref_from_prefix(bytes: &[u8]) -> Option<(&Self, &[u8])>",
        "<Self as FromBytes>::ref_from_prefix(bytes).ok()",
    );
    r.append(method.as_str());
    let method = render_method_code(
        "",
        "",
        "mut_from_prefix(bytes: &mut [u8]) -> Option<(&mut Self, &mut [u8])>",
        "<Self as FromBytes>::mut_from_prefix(bytes).ok()",
    );
    r.append(method.as_str());
    r.append("}\n\n");
    r
}

/// A struct with attributes and derived traits (`derives`), a visibility, a name, generic
/// parameters (`generics`) and fields, and its accessors. Its generic parameters are `header` in
/// the header of an impl and `arguments` as arguments. Assertions (`claims`) and a codec follow.
pub open spec fn struct_item_code(
    attrs: Seq<char>,
    derives: Seq<char>,
    vis: Seq<char>,
    name: Seq<char>,
    generics: Seq<char>,
    fields: Seq<char>,
    header: Seq<char>,
    arguments: Seq<char>,
    accessors: Seq<char>,
    claims: Seq<char>,
    codec: Seq<char>,
) -> Seq<char> {
    "\n"@ + attrs + " "@ + derives + " "@ + declaration_code(
        vis,
        name,
        generics,
        fields,
        header,
        arguments,
        accessors,
    ) + layout_impl_code(name, header, arguments) + view_impl_code(name, header, arguments) + claims
        + "\n\n"@ + codec + "\n"@
}

/// Renders [`struct_item_code`].
pub fn render_struct_item_code(
    attrs: &str,
    derives: &str,
    vis: &str,
    name: &str,
    generics: &str,
    fields: &str,
    header: &str,
    arguments: &str,
    accessors: &str,
    claims: &str,
    codec: &str,
) -> (r: String)
    ensures
        r@ == struct_item_code(
            attrs@,
            derives@,
            vis@,
            name@,
            generics@,
            fields@,
            header@,
            arguments@,
            accessors@,
            claims@,
            codec@,
        ),
{
    let declaration = render_declaration_code(
        vis,
        name,
        generics,
        fields,
        header,
        arguments,
        accessors,
    );
    let mut r = "\n".to_owned();
    r.append(attrs);
    r.append(" ");
    r.append(derives);
    r.append(" ");
    r.append(declaration.as_str());
    r.append(render_layout_impl_code(name, header, arguments).as_str());
    r.append(render_view_impl_code(name, header, arguments).as_str());
    r.append(claims);
    r.append("\n\n");
    r.append(codec);
    r.append("\n");
    r
}

/// The codec of a type for a storage type (`target`). Its generic parameters are `header`, under a
/// `where` clause (`clause`). It has a width (`bits`), can fail or not (`fallible`) with values of
/// a type (`error`), and is read as `result`. Its methods are `read`, `checked`, `write` and
/// `public`.
pub open spec fn codec_impl_code(
    header: Seq<char>,
    target: Seq<char>,
    ty: Seq<char>,
    clause: Seq<char>,
    bits: Seq<char>,
    fallible: Seq<char>,
    result: Seq<char>,
    error: Seq<char>,
    read: Seq<char>,
    checked: Seq<char>,
    write: Seq<char>,
    public: Seq<char>,
) -> Seq<char> {
    "\nimpl "@ + header + " BitCodec<"@ + target + "> for "@ + ty + " "@ + clause
        + " {\n    const BITS: usize = "@ + bits + ";\n    const IS_FALLIBLE: bool = "@ + fallible
        + ";\n    type Read = "@ + result + ";\n"@
        + method_code(
            ""@,
            ""@,
            "read_bits(src: &[u8], bit_offset: usize) -> Self"@,
            read,
        )
        + method_code(
            ""@,
            ""@,
            "try_read_bits(src: &[u8], bit_offset: usize) -> Result<Self, "@ + error + ">"@,
            checked,
        )
        + method_code(
            ""@,
            ""@,
            "write_bits(&self, dst: &mut [u8], bit_offset: usize)"@,
            write,
        )
        + method_code(
            ""@,
            ""@,
            "read(src: &[u8], bit_offset: usize) -> Self::Read"@,
            public,
        ) + "}\n"@
}

/// Renders [`codec_impl_code`].
pub fn render_codec_impl_code(
    header: &str,
    target: &str,
    ty: &str,
    clause: &str,
    bits: &str,
    fallible: &str,
    result: &str,
    error: &str,
    read: &str,
    checked: &str,
    write: &str,
    public: &str,
) -> (r: String)
    ensures
        r@ == codec_impl_code(
            header@,
            target@,
            ty@,
            clause@,
            bits@,
            fallible@,
            result@,
            error@,
            read@,
            checked@,
            write@,
            public@,
        ),
{
    let mut try_read = "try_read_bits(src: &[u8], bit_offset: usize) -> Result<Self, ".to_owned();
    try_read.append(error);
    try_read.append(">");
    let mut r = "\nimpl ".to_owned();
    r.append(header);
    r.append(" BitCodec<");
    r.append(target);
    r.append("> for ");
    r.append(ty);
    r.append(" ");
    r.append(clause);
    r.append(" {\n    const BITS: usize = ");
    r.append(bits);
    r.append(";\n    const IS_FALLIBLE: bool = ");
    r.append(fallible);
    r.append(";\n    type Read = ");
    r.append(result);
    r.append(";\n");
    let method = render_method_code(
        "",
        "",
        "read_bits(src: &[u8], bit_offset: usize) -> Self",
        read,
    );
    r.append(method.as_str());
    let method = render_method_code(
        "",
        "",
        try_read.as_str(),
        checked,
    );
    r.append(method.as_str());
    let method = render_method_code(
        "",
        "",
        "write_bits(&self, dst: &mut [u8], bit_offset: usize)",
        write,
    );
    r.append(method.as_str());
    let method = render_method_code(
        "",
        "",
        "read(src: &[u8], bit_offset: usize) -> Self::Read",
        public,
    );
    r.append(method.as_str());
    r.append("}\n");
    r
}

/// The codec of a struct that is stored as its first bits, so many (`bits`). Its generic parameters
/// are `header` in the header of an impl and `arguments` as arguments.
pub open spec fn packed_codec_code(
    name: Seq<char>,
    header: Seq<char>,
    arguments: Seq<char>,
    bits: Seq<char>,
) -> Seq<char> {
    codec_impl_code(
        header,
        name + " "@ + arguments,
        name + " "@ + arguments,
        ""@,
        bits,
        "false"@,
        "Self"@,
        "Self"@,
        "::zorua::packed::read_packed::<Self>(src, bit_offset, "@ + bits + ")"@,
        "Ok(<Self as BitCodec<"@ + name + " "@ + arguments
            + ">>::read_bits(src, bit_offset))"@,
        "::zorua::packed::write_packed::<Self>(self, dst, bit_offset, "@ + bits + ");"@,
        "<Self as BitCodec<"@ + name + " "@ + arguments + ">>::read_bits(src, bit_offset)"@,
    )
}

/// Renders [`packed_codec_code`].
pub fn render_packed_codec_code(
    name: &str,
    header: &str,
    arguments: &str,
    bits: &str,
) -> (r: String)
    ensures
        r@ == packed_codec_code(name@, header@, arguments@, bits@),
{
    let mut target = name.to_owned();
    target.append(" ");
    target.append(arguments);
    let mut ty = name.to_owned();
    ty.append(" ");
    ty.append(arguments);
    let mut read = "::zorua::packed::read_packed::<Self>(src, bit_offset, ".to_owned();
    read.append(bits);
    read.append(")");
    let mut checked = "Ok(<Self as BitCodec<".to_owned();
    checked.append(name);
    checked.append(" ");
    checked.append(arguments);
    checked.append(">>::read_bits(src, bit_offset))");
    let mut write = "::zorua::packed::write_packed::<Self>(self, dst, bit_offset, ".to_owned();
    write.append(bits);
    write.append(");");
    let mut public = "<Self as BitCodec<".to_owned();
    public.append(name);
    public.append(" ");
    public.append(arguments);
    public.append(">>::read_bits(src, bit_offset)");
    render_codec_impl_code(
        header,
        target.as_str(),
        ty.as_str(),
        "",
        bits,
        "false",
        "Self",
        "Self",
        read.as_str(),
        checked.as_str(),
        write.as_str(),
        public.as_str(),
    )
}

} // verus!
