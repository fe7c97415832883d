//! The type flattener: from a type to the scalar slots that stand for a
//! value of that type, and to its size in bytes.
use vstd::prelude::*;
use vstd::string::*;

use crate::config::Config;
use crate::error::{error_of, CompileError, ErrorKind, ErrorView};
use crate::ir::{Name, NamedStructDef, Type, Types};
use crate::text::{decimal, push_decimal};
use crate::utils::name::{tidy, tidy_name, yul_ident_name, yul_name};
use crate::yuler::ident::{ident_views, Ident};

verus! {

/// The name of the part at position `i` of the value named `base`.
pub open spec fn indexed(base: Seq<char>, i: nat) -> Seq<char> {
    base + "_"@ + decimal(i)
}

/// The base name of the slots of a returned value.
pub open spec fn return_base() -> Seq<char> {
    "__yn_return"@
}

/// `acc` followed by what `rest` gives, or the error of `rest`.
pub open spec fn then<X>(acc: Seq<X>, rest: Result<Seq<X>, ErrorView>) -> Result<
    Seq<X>,
    ErrorView,
> {
    match rest {
        Ok(t) => Ok(acc + t),
        Err(e) => Err(e),
    }
}

/// The slots of a value of type `ty` named `base`, in order.
///
/// An integer of at most 256 bits, a pointer and a basic type are one slot,
/// named `base`. An array is the slots of its elements, a struct those of
/// its fields, each named by `base` and its position. A named type is what
/// the type table defines for it. `void` has no slot, and is an error unless
/// `void_ok`. `fuel` bounds how many named types may be resolved inside one
/// another, so that a type defined through itself is an error.
pub open spec fn slots(
    types: &Types,
    config: &Config,
    base: Seq<char>,
    ty: &Type,
    void_ok: bool,
    fuel: nat,
) -> Result<Seq<Seq<char>>, ErrorView>
    decreases fuel, ty, 0nat,
{
    match ty {
        Type::VoidType => if void_ok {
            Ok(Seq::empty())
        } else {
            Err(error_of(ErrorKind::UnsupportedVoid, base))
        },
        Type::IntegerType { bits } => if *bits > 256 {
            Err(error_of(ErrorKind::UnsupportedWidth, base))
        } else {
            Ok(seq![base])
        },
        Type::PointerType { addr_space } => Ok(seq![base]),
        Type::ArrayType { element_type, num_elements } => elem_slots(
            types,
            config,
            base,
            element_type,
            void_ok,
            fuel,
            0,
            *num_elements as nat,
        ),
        Type::StructType { element_types, is_packed } => field_slots(
            types,
            config,
            base,
            *element_types,
            void_ok,
            fuel,
            0,
        ),
        Type::NamedStructType { name } => if config.is_basic(name@) {
            Ok(seq![base])
        } else {
            match types.def_of(name@) {
                Some(NamedStructDef::Defined(def)) => if fuel == 0 {
                    Err(error_of(ErrorKind::LinkError, name@))
                } else {
                    slots(types, config, base, &def, void_ok, (fuel - 1) as nat)
                },
                _ => Err(error_of(ErrorKind::LinkError, name@)),
            }
        },
        Type::FuncType { result_type, param_types, is_var_arg } => Err(
            error_of(ErrorKind::UnsupportedType, base),
        ),
        Type::Other { text } => Err(error_of(ErrorKind::UnsupportedType, text@)),
    }
}

/// The slots of the elements `from..to` of an array named `base`.
pub open spec fn elem_slots(
    types: &Types,
    config: &Config,
    base: Seq<char>,
    elem: &Type,
    void_ok: bool,
    fuel: nat,
    from: nat,
    to: nat,
) -> Result<Seq<Seq<char>>, ErrorView>
    decreases fuel, elem, (to - from) + 1,
{
    if from >= to {
        Ok(Seq::empty())
    } else {
        match slots(types, config, indexed(base, from), elem, void_ok, fuel) {
            Err(e) => Err(e),
            Ok(head) => then(
                head,
                elem_slots(types, config, base, elem, void_ok, fuel, from + 1, to),
            ),
        }
    }
}

/// The slots of the fields from position `from` on of a struct named `base`.
pub open spec fn field_slots(
    types: &Types,
    config: &Config,
    base: Seq<char>,
    fields: Vec<Type>,
    void_ok: bool,
    fuel: nat,
    from: nat,
) -> Result<Seq<Seq<char>>, ErrorView>
    decreases fuel, fields, (fields.len() - from) + 1,
{
    if from >= fields.len() {
        Ok(Seq::empty())
    } else {
        match slots(types, config, indexed(base, from), &fields[from as int], void_ok, fuel) {
            Err(e) => Err(e),
            Ok(head) => then(
                head,
                field_slots(types, config, base, fields, void_ok, fuel, from + 1),
            ),
        }
    }
}

/// Whether the outcome `r` is the slots or the error that `s` gives.
pub open spec fn slots_outcome(
    r: Result<Vec<Ident>, CompileError>,
    s: Result<Seq<Seq<char>>, ErrorView>,
) -> bool {
    match r {
        Ok(v) => s == Ok::<Seq<Seq<char>>, ErrorView>(ident_views(v@)),
        Err(e) => s == Err::<Seq<Seq<char>>, ErrorView>(e@),
    }
}

/// The name of the part at position `i` of the value named `base`.
pub fn indexed_name(base: &str, i: usize) -> (r: String)
    ensures
        r@ == indexed(base@, i as nat),
{
    let mut out = base.to_owned();
    out.append("_");
    push_decimal(&mut out, i as u64);
    out
}

/// Flattens types against a type table and a configuration.
pub struct TypeFlatter<'a> {
    pub types: &'a Types,
    pub config: &'a Config,
}

impl<'a> TypeFlatter<'a> {
    /// A flattener over `types` and `config`.
    pub fn new(types: &'a Types, config: &'a Config) -> (r: Self)
        ensures
            r.types == types,
            r.config == config,
    {
        TypeFlatter { types, config }
    }

    /// How many named types may be resolved inside one another: as many as
    /// the type table has entries.
    pub open spec fn fuel(&self) -> nat {
        self.types.named_struct_defs@.len()
    }

    /// The slots of the parameter, local value or call result `name` of type
    /// `ty`. `void` is an error here.
    pub fn flatten_parameter(&self, name: &Name, ty: &Type) -> (r: Result<
        Vec<Ident>,
        CompileError,
    >)
        ensures
            slots_outcome(
                r,
                slots(self.types, self.config, tidy(yul_name(name@)), ty, false, self.fuel()),
            ),
    {
        let name = yul_ident_name(name);
        let name = tidy_name(name.as_str());
        self.iter_type(name.as_str(), ty, false, self.types.named_struct_defs.len())
    }

    /// The slots of a returned value of type `ty`. `void` gives none.
    pub fn flatten_return_type(&self, ty: &Type) -> (r: Result<Vec<Ident>, CompileError>)
        ensures
            slots_outcome(
                r,
                slots(self.types, self.config, return_base(), ty, true, self.fuel()),
            ),
    {
        self.iter_type("__yn_return", ty, true, self.types.named_struct_defs.len())
    }

    /// The slots of a value of type `ty` named `name`.
    pub fn iter_type(&self, name: &str, ty: &Type, void_generated: bool, fuel: usize) -> (r: Result<
        Vec<Ident>,
        CompileError,
    >)
        ensures
            slots_outcome(
                r,
                slots(self.types, self.config, name@, ty, void_generated, fuel as nat),
            ),
        decreases fuel, ty,
    {
        let ghost total = slots(self.types, self.config, name@, ty, void_generated, fuel as nat);
        match ty {
            Type::VoidType => {
                if !void_generated {
                    return Err(CompileError::new(ErrorKind::UnsupportedVoid, name));
                }
                let out: Vec<Ident> = Vec::new();
                assert(ident_views(out@) =~= Seq::empty());
                Ok(out)
            },
            Type::IntegerType { bits } => {
                if *bits > 256 {
                    return Err(CompileError::new(ErrorKind::UnsupportedWidth, name));
                }
                Ok(one_ident(name))
            },
            Type::PointerType { addr_space: _ } => Ok(one_ident(name)),
            Type::ArrayType { element_type, num_elements } => {
                let n = *num_elements;
                let mut tokens: Vec<Ident> = Vec::new();
                let mut i: usize = 0;
                assert(ident_views(tokens@) =~= Seq::empty());
                while i < n
                    invariant
                        i <= n,
                        total == slots(
                            self.types,
                            self.config,
                            name@,
                            ty,
                            void_generated,
                            fuel as nat,
                        ),
                        total == elem_slots(
                            self.types,
                            self.config,
                            name@,
                            element_type,
                            void_generated,
                            fuel as nat,
                            0,
                            n as nat,
                        ),
                        total == then(
                            ident_views(tokens@),
                            elem_slots(
                                self.types,
                                self.config,
                                name@,
                                element_type,
                                void_generated,
                                fuel as nat,
                                i as nat,
                                n as nat,
                            ),
                        ),
                        decreases_to!(ty => **element_type),
                    decreases n - i,
                {
                    let added_name = indexed_name(name, i);
                    let ghost before = ident_views(tokens@);
                    match self.iter_type(added_name.as_str(), element_type, void_generated, fuel) {
                        Err(e) => {
                            return Err(e);
                        },
                        Ok(mut sub) => {
                            let ghost head = ident_views(sub@);
                            tokens.append(&mut sub);
                            proof {
                                assert(ident_views(tokens@) =~= before + head);
                                let rest = elem_slots(
                                    self.types,
                                    self.config,
                                    name@,
                                    element_type,
                                    void_generated,
                                    fuel as nat,
                                    (i + 1) as nat,
                                    n as nat,
                                );
                                match rest {
                                    Ok(t) => {
                                        assert(before + (head + t) =~= (before + head) + t);
                                    },
                                    Err(_) => {},
                                }
                            }
                        },
                    }
                    i += 1;
                }
                proof {
                    assert(ident_views(tokens@) + Seq::<Seq<char>>::empty() =~= ident_views(
                        tokens@,
                    ));
                }
                Ok(tokens)
            },
            Type::StructType { element_types, is_packed: _ } => {
                let n = element_types.len();
                let mut tokens: Vec<Ident> = Vec::new();
                let mut i: usize = 0;
                assert(ident_views(tokens@) =~= Seq::empty());
                while i < n
                    invariant
                        i <= n,
                        n == element_types.len(),
                        total == slots(
                            self.types,
                            self.config,
                            name@,
                            ty,
                            void_generated,
                            fuel as nat,
                        ),
                        total == field_slots(
                            self.types,
                            self.config,
                            name@,
                            *element_types,
                            void_generated,
                            fuel as nat,
                            0,
                        ),
                        total == then(
                            ident_views(tokens@),
                            field_slots(
                                self.types,
                                self.config,
                                name@,
                                *element_types,
                                void_generated,
                                fuel as nat,
                                i as nat,
                            ),
                        ),
                        decreases_to!(ty => *element_types),
                    decreases n - i,
                {
                    let added_name = indexed_name(name, i);
                    let ghost before = ident_views(tokens@);
                    match self.iter_type(
                        added_name.as_str(),
                        &element_types[i],
                        void_generated,
                        fuel,
                    ) {
                        Err(e) => {
                            return Err(e);
                        },
                        Ok(mut sub) => {
                            let ghost head = ident_views(sub@);
                            tokens.append(&mut sub);
                            proof {
                                assert(ident_views(tokens@) =~= before + head);
                                let rest = field_slots(
                                    self.types,
                                    self.config,
                                    name@,
                                    *element_types,
                                    void_generated,
                                    fuel as nat,
                                    (i + 1) as nat,
                                );
                                match rest {
                                    Ok(t) => {
                                        assert(before + (head + t) =~= (before + head) + t);
                                    },
                                    Err(_) => {},
                                }
                            }
                        },
                    }
                    i += 1;
                }
                proof {
                    assert(ident_views(tokens@) + Seq::<Seq<char>>::empty() =~= ident_views(
                        tokens@,
                    ));
                }
                Ok(tokens)
            },
            Type::NamedStructType { name: struct_name } => {
                if self.config.contains(struct_name.as_str()) {
                    return Ok(one_ident(name));
                }
                match self.types.named_struct_def(struct_name.as_str()) {
                    Some(NamedStructDef::Defined(def)) => {
                        if fuel == 0 {
                            return Err(CompileError::new(ErrorKind::LinkError, struct_name.as_str()));
                        }
                        self.iter_type(name, def, void_generated, fuel - 1)
                    },
                    _ => Err(CompileError::new(ErrorKind::LinkError, struct_name.as_str())),
                }
            },
            Type::FuncType { result_type: _, param_types: _, is_var_arg: _ } => Err(
                CompileError::new(ErrorKind::UnsupportedType, name),
            ),
            Type::Other { text } => Err(CompileError::new(ErrorKind::UnsupportedType, text.as_str())),
        }
    }
}

/// The one identifier named `name`.
pub fn one_ident(name: &str) -> (r: Vec<Ident>)
    ensures
        ident_views(r@) == seq![name@],
{
    let mut out: Vec<Ident> = Vec::new();
    out.push(Ident(name.to_owned()));
    assert(ident_views(out@) =~= seq![name@]);
    out
}

/// The base name of the slots of a value: the tidied name where the value
/// has one, and the base name of a returned value where it has none.
pub open spec fn base_name(name: Option<&Name>) -> Seq<char> {
    match name {
        Some(n) => tidy(yul_name(n@)),
        None => return_base(),
    }
}

/// The slots of a value of type `ty` that is named `name`, or is the
/// returned value where it has no name. `void` is an error unless
/// `void_generated`.
pub fn flatten_struct_type(
    types: &Types,
    config: &Config,
    name: Option<&Name>,
    ty: &Type,
    void_generated: bool,
) -> (r: Result<Vec<Ident>, CompileError>)
    ensures
        slots_outcome(
            r,
            slots(
                types,
                config,
                base_name(name),
                ty,
                void_generated,
                types.named_struct_defs@.len() as nat,
            ),
        ),
{
    let flatter = TypeFlatter::new(types, config);
    match name {
        Some(n) => {
            let base = yul_ident_name(n);
            let base = tidy_name(base.as_str());
            flatter.iter_type(base.as_str(), ty, void_generated, types.named_struct_defs.len())
        },
        None => flatter.iter_type(
            "__yn_return",
            ty,
            void_generated,
            types.named_struct_defs.len(),
        ),
    }
}

/// The size in bytes of a value of type `ty`, or the error that stops the
/// computation: an integer of at most 8 bits is one byte, any other integer,
/// a pointer and a basic type are 32; an array is its element's size times
/// its length, a struct the sum of its fields' sizes; a named type has the
/// size of what the type table defines for it. A size over 64 bits is an
/// error.
pub open spec fn size_of(types: &Types, config: &Config, ty: &Type, fuel: nat) -> Result<
    nat,
    ErrorView,
>
    decreases fuel, ty, 0nat,
{
    match ty {
        Type::VoidType => Ok(0),
        Type::IntegerType { bits } => if *bits <= 8 {
            Ok(1)
        } else {
            Ok(32)
        },
        Type::PointerType { addr_space } => Ok(32),
        Type::ArrayType { element_type, num_elements } => match size_of(
            types,
            config,
            element_type,
            fuel,
        ) {
            Err(e) => Err(e),
            Ok(size) => if size * (*num_elements) > u64::MAX {
                Err(error_of(ErrorKind::SizeOverflow, Seq::empty()))
            } else {
                Ok((size * (*num_elements)) as nat)
            },
        },
        Type::StructType { element_types, is_packed } => field_sizes(
            types,
            config,
            *element_types,
            fuel,
            0,
            0,
        ),
        Type::NamedStructType { name } => if config.is_basic(name@) {
            Ok(32)
        } else {
            match types.def_of(name@) {
                Some(NamedStructDef::Defined(def)) => if fuel == 0 {
                    Err(error_of(ErrorKind::LinkError, name@))
                } else {
                    size_of(types, config, &def, (fuel - 1) as nat)
                },
                _ => Err(error_of(ErrorKind::LinkError, name@)),
            }
        },
        Type::FuncType { result_type, param_types, is_var_arg } => Err(
            error_of(ErrorKind::UnsupportedType, Seq::empty()),
        ),
        Type::Other { text } => Err(error_of(ErrorKind::UnsupportedType, text@)),
    }
}

/// `acc` plus the sizes of the fields from position `from` on.
pub open spec fn field_sizes(
    types: &Types,
    config: &Config,
    fields: Vec<Type>,
    fuel: nat,
    from: nat,
    acc: nat,
) -> Result<nat, ErrorView>
    decreases fuel, fields, (fields.len() - from) + 1,
{
    if from >= fields.len() {
        Ok(acc)
    } else {
        match size_of(types, config, &fields[from as int], fuel) {
            Err(e) => Err(e),
            Ok(size) => if acc + size > u64::MAX {
                Err(error_of(ErrorKind::SizeOverflow, Seq::empty()))
            } else {
                field_sizes(types, config, fields, fuel, from + 1, acc + size)
            },
        }
    }
}

/// Whether the outcome `r` is the size or the error that `s` gives.
pub open spec fn size_outcome(r: Result<u64, CompileError>, s: Result<nat, ErrorView>) -> bool {
    match r {
        Ok(v) => s == Ok::<nat, ErrorView>(v as nat),
        Err(e) => s == Err::<nat, ErrorView>(e@),
    }
}

impl<'a> TypeFlatter<'a> {
    /// The size in bytes of a value of type `ty`.
    pub fn compute_size(&self, ty: &Type) -> (r: Result<u64, CompileError>)
        ensures
            size_outcome(r, size_of(self.types, self.config, ty, self.fuel())),
    {
        self.size_with_fuel(ty, self.types.named_struct_defs.len())
    }

    /// The size in bytes of a value of type `ty`, with at most `fuel` named
    /// types resolved inside one another.
    pub fn size_with_fuel(&self, ty: &Type, fuel: usize) -> (r: Result<u64, CompileError>)
        ensures
            size_outcome(r, size_of(self.types, self.config, ty, fuel as nat)),
        decreases fuel, ty,
    {
        let ghost total = size_of(self.types, self.config, ty, fuel as nat);
        match ty {
            Type::VoidType => Ok(0),
            Type::IntegerType { bits } => {
                if *bits <= 8 {
                    Ok(1)
                } else {
                    Ok(32)
                }
            },
            Type::PointerType { addr_space: _ } => Ok(32),
            Type::ArrayType { element_type, num_elements } => {
                match self.size_with_fuel(element_type, fuel) {
                    Err(e) => Err(e),
                    Ok(size) => match size.checked_mul(*num_elements as u64) {
                        Some(v) => Ok(v),
                        None => Err(CompileError::bare(ErrorKind::SizeOverflow)),
                    },
                }
            },
            Type::StructType { element_types, is_packed: _ } => {
                let n = element_types.len();
                let mut total_size: u64 = 0;
                let mut i: usize = 0;
                while i < n
                    invariant
                        i <= n,
                        n == element_types.len(),
                        total == size_of(self.types, self.config, ty, fuel as nat),
                        total == field_sizes(
                            self.types,
                            self.config,
                            *element_types,
                            fuel as nat,
                            i as nat,
                            total_size as nat,
                        ),
                        decreases_to!(ty => *element_types),
                    decreases n - i,
                {
                    match self.size_with_fuel(&element_types[i], fuel) {
                        Err(e) => {
                            return Err(e);
                        },
                        Ok(size) => match total_size.checked_add(size) {
                            Some(v) => {
                                total_size = v;
                            },
                            None => {
                                return Err(CompileError::bare(ErrorKind::SizeOverflow));
                            },
                        },
                    }
                    i += 1;
                }
                Ok(total_size)
            },
            Type::NamedStructType { name: struct_name } => {
                if self.config.contains(struct_name.as_str()) {
                    return Ok(32);
                }
                match self.types.named_struct_def(struct_name.as_str()) {
                    Some(NamedStructDef::Defined(def)) => {
                        if fuel == 0 {
                            return Err(
                                CompileError::new(ErrorKind::LinkError, struct_name.as_str()),
                            );
                        }
                        self.size_with_fuel(def, fuel - 1)
                    },
                    _ => Err(CompileError::new(ErrorKind::LinkError, struct_name.as_str())),
                }
            },
            Type::FuncType { result_type: _, param_types: _, is_var_arg: _ } => Err(
                CompileError::bare(ErrorKind::UnsupportedType),
            ),
            Type::Other { text } => Err(CompileError::new(ErrorKind::UnsupportedType, text.as_str())),
        }
    }
}

/// How many slots a value of type `ty` has, counted without naming them.
pub open spec fn slot_count(types: &Types, config: &Config, ty: &Type, fuel: nat) -> nat
    decreases fuel, ty, 0nat,
{
    match ty {
        Type::VoidType => 0,
        Type::IntegerType { bits } => 1,
        Type::PointerType { addr_space } => 1,
        Type::ArrayType { element_type, num_elements } => slot_count(
            types,
            config,
            element_type,
            fuel,
        ) * (*num_elements as nat),
        Type::StructType { element_types, is_packed } => field_count(
            types,
            config,
            *element_types,
            fuel,
            0,
        ),
        Type::NamedStructType { name } => if config.is_basic(name@) {
            1
        } else {
            match types.def_of(name@) {
                Some(NamedStructDef::Defined(def)) => if fuel == 0 {
                    0
                } else {
                    slot_count(types, config, &def, (fuel - 1) as nat)
                },
                _ => 0,
            }
        },
        Type::FuncType { result_type, param_types, is_var_arg } => 0,
        Type::Other { text } => 0,
    }
}

/// How many slots the fields from position `from` on have together.
pub open spec fn field_count(
    types: &Types,
    config: &Config,
    fields: Vec<Type>,
    fuel: nat,
    from: nat,
) -> nat
    decreases fuel, fields, (fields.len() - from) + 1,
{
    if from >= fields.len() {
        0
    } else {
        slot_count(types, config, &fields[from as int], fuel) + field_count(
            types,
            config,
            fields,
            fuel,
            from + 1,
        )
    }
}

proof fn lemma_slots_shape(
    types: &Types,
    config: &Config,
    b1: Seq<char>,
    b2: Seq<char>,
    ty: &Type,
    void_ok: bool,
    fuel: nat,
)
    ensures
        slots(types, config, b1, ty, void_ok, fuel) is Ok <==> slots(
            types,
            config,
            b2,
            ty,
            void_ok,
            fuel,
        ) is Ok,
        slots(types, config, b1, ty, void_ok, fuel) matches Ok(s) ==> s.len() == slot_count(
            types,
            config,
            ty,
            fuel,
        ),
    decreases fuel, ty, 0nat,
{
    match ty {
        Type::ArrayType { element_type, num_elements } => {
            lemma_elem_shape(
                types,
                config,
                b1,
                b2,
                element_type,
                void_ok,
                fuel,
                0,
                *num_elements as nat,
            );
            assert(slot_count(types, config, element_type, fuel) * (*num_elements as nat) == (
            *num_elements as nat - 0) * slot_count(types, config, element_type, fuel))
                by (nonlinear_arith);
        },
        Type::StructType { element_types, is_packed } => {
            lemma_field_shape(types, config, b1, b2, *element_types, void_ok, fuel, 0);
        },
        Type::NamedStructType { name } => {
            if !config.is_basic(name@) {
                match types.def_of(name@) {
                    Some(NamedStructDef::Defined(def)) => {
                        if fuel > 0 {
                            lemma_slots_shape(
                                types,
                                config,
                                b1,
                                b2,
                                &def,
                                void_ok,
                                (fuel - 1) as nat,
                            );
                        }
                    },
                    _ => {},
                }
            }
        },
        _ => {},
    }
}

proof fn lemma_elem_shape(
    types: &Types,
    config: &Config,
    b1: Seq<char>,
    b2: Seq<char>,
    elem: &Type,
    void_ok: bool,
    fuel: nat,
    from: nat,
    to: nat,
)
    requires
        from <= to,
    ensures
        elem_slots(types, config, b1, elem, void_ok, fuel, from, to) is Ok <==> elem_slots(
            types,
            config,
            b2,
            elem,
            void_ok,
            fuel,
            from,
            to,
        ) is Ok,
        elem_slots(types, config, b1, elem, void_ok, fuel, from, to) matches Ok(s) ==> s.len() == (
        to - from) * slot_count(types, config, elem, fuel),
    decreases fuel, elem, (to - from) + 1,
{
    if from < to {
        lemma_slots_shape(types, config, indexed(b1, from), indexed(b2, from), elem, void_ok, fuel);
        lemma_elem_shape(types, config, b1, b2, elem, void_ok, fuel, from + 1, to);
        let c = slot_count(types, config, elem, fuel);
        assert((to - from) * c == c + (to - (from + 1)) * c) by (nonlinear_arith);
    } else {
        let c = slot_count(types, config, elem, fuel);
        assert((to - from) * c == 0) by (nonlinear_arith)
            requires
                to == from,
        ;
    }
}

proof fn lemma_field_shape(
    types: &Types,
    config: &Config,
    b1: Seq<char>,
    b2: Seq<char>,
    fields: Vec<Type>,
    void_ok: bool,
    fuel: nat,
    from: nat,
)
    ensures
        field_slots(types, config, b1, fields, void_ok, fuel, from) is Ok <==> field_slots(
            types,
            config,
            b2,
            fields,
            void_ok,
            fuel,
            from,
        ) is Ok,
        field_slots(types, config, b1, fields, void_ok, fuel, from) matches Ok(s) ==> s.len()
            == field_count(types, config, fields, fuel, from),
    decreases fuel, fields, (fields.len() - from) + 1,
{
    if from < fields.len() {
        lemma_slots_shape(
            types,
            config,
            indexed(b1, from),
            indexed(b2, from),
            &fields[from as int],
            void_ok,
            fuel,
        );
        lemma_field_shape(types, config, b1, b2, fields, void_ok, fuel, from + 1);
    }
}

proof fn lemma_slots_more_fuel(
    types: &Types,
    config: &Config,
    base: Seq<char>,
    ty: &Type,
    void_ok: bool,
    fuel: nat,
    more: nat,
)
    requires
        fuel <= more,
        slots(types, config, base, ty, void_ok, fuel) is Ok,
    ensures
        slots(types, config, base, ty, void_ok, more) == slots(
            types,
            config,
            base,
            ty,
            void_ok,
            fuel,
        ),
    decreases fuel, ty, 0nat,
{
    match ty {
        Type::ArrayType { element_type, num_elements } => {
            lemma_elems_more_fuel(
                types,
                config,
                base,
                element_type,
                void_ok,
                fuel,
                more,
                0,
                *num_elements as nat,
            );
        },
        Type::StructType { element_types, is_packed } => {
            lemma_fields_more_fuel(types, config, base, *element_types, void_ok, fuel, more, 0);
        },
        Type::NamedStructType { name } => {
            if !config.is_basic(name@) {
                match types.def_of(name@) {
                    Some(NamedStructDef::Defined(def)) => {
                        lemma_slots_more_fuel(
                            types,
                            config,
                            base,
                            &def,
                            void_ok,
                            (fuel - 1) as nat,
                            (more - 1) as nat,
                        );
                    },
                    _ => {},
                }
            }
        },
        _ => {},
    }
}

proof fn lemma_elems_more_fuel(
    types: &Types,
    config: &Config,
    base: Seq<char>,
    elem: &Type,
    void_ok: bool,
    fuel: nat,
    more: nat,
    from: nat,
    to: nat,
)
    requires
        fuel <= more,
        elem_slots(types, config, base, elem, void_ok, fuel, from, to) is Ok,
    ensures
        elem_slots(types, config, base, elem, void_ok, more, from, to) == elem_slots(
            types,
            config,
            base,
            elem,
            void_ok,
            fuel,
            from,
            to,
        ),
    decreases fuel, elem, (to - from) + 1,
{
    if from < to {
        lemma_slots_more_fuel(types, config, indexed(base, from), elem, void_ok, fuel, more);
        lemma_elems_more_fuel(types, config, base, elem, void_ok, fuel, more, from + 1, to);
    }
}

proof fn lemma_fields_more_fuel(
    types: &Types,
    config: &Config,
    base: Seq<char>,
    fields: Vec<Type>,
    void_ok: bool,
    fuel: nat,
    more: nat,
    from: nat,
)
    requires
        fuel <= more,
        field_slots(types, config, base, fields, void_ok, fuel, from) is Ok,
    ensures
        field_slots(types, config, base, fields, void_ok, more, from) == field_slots(
            types,
            config,
            base,
            fields,
            void_ok,
            fuel,
            from,
        ),
    decreases fuel, fields, (fields.len() - from) + 1,
{
    if from < fields.len() {
        lemma_slots_more_fuel(
            types,
            config,
            indexed(base, from),
            &fields[from as int],
            void_ok,
            fuel,
            more,
        );
        lemma_fields_more_fuel(types, config, base, fields, void_ok, fuel, more, from + 1);
    }
}

/// The bound on named types only ever refuses: where a type flattens
/// within one bound, it flattens into the same slots within every larger
/// bound.
pub proof fn lemma_slots_do_not_depend_on_fuel(
    types: &Types,
    config: &Config,
    base: Seq<char>,
    ty: &Type,
    void_ok: bool,
    fuel: nat,
    more: nat,
)
    requires
        fuel <= more,
        slots(types, config, base, ty, void_ok, fuel) is Ok,
    ensures
        slots(types, config, base, ty, void_ok, more) == slots(
            types,
            config,
            base,
            ty,
            void_ok,
            fuel,
        ),
{
    lemma_slots_more_fuel(types, config, base, ty, void_ok, fuel, more);
}

/// Flattening and then counting gives what counting alone gives: where a
/// type has slots, it has `slot_count` of them, whatever the value is named.
pub proof fn lemma_slot_count(
    types: &Types,
    config: &Config,
    base: Seq<char>,
    ty: &Type,
    void_ok: bool,
    fuel: nat,
)
    ensures
        slots(types, config, base, ty, void_ok, fuel) matches Ok(s) ==> s.len() == slot_count(
            types,
            config,
            ty,
            fuel,
        ),
{
    lemma_slots_shape(types, config, base, base, ty, void_ok, fuel);
}

/// Caller and callee agree slot by slot: a value of type `ty` flattens under
/// the argument's name `arg` exactly when it does under the parameter's name
/// `param`, and then into the same number of slots.
pub proof fn lemma_positional_matching(
    types: &Types,
    config: &Config,
    arg: Seq<char>,
    param: Seq<char>,
    ty: &Type,
    void_ok: bool,
    fuel: nat,
)
    ensures
        slots(types, config, arg, ty, void_ok, fuel) is Ok <==> slots(
            types,
            config,
            param,
            ty,
            void_ok,
            fuel,
        ) is Ok,
        slots(types, config, arg, ty, void_ok, fuel) is Ok ==> slots(
            types,
            config,
            arg,
            ty,
            void_ok,
            fuel,
        )->Ok_0.len() == slots(types, config, param, ty, void_ok, fuel)->Ok_0.len(),
{
    lemma_slots_shape(types, config, arg, param, ty, void_ok, fuel);
    lemma_slots_shape(types, config, param, arg, ty, void_ok, fuel);
}

/// Flattening is a function of what is flattened: two runs on the same
/// name and type, which both give what `slots` gives, give the same slots
/// or the same error.
pub proof fn lemma_flattening_deterministic(
    first: Result<Vec<Ident>, CompileError>,
    second: Result<Vec<Ident>, CompileError>,
    expected: Result<Seq<Seq<char>>, ErrorView>,
)
    requires
        slots_outcome(first, expected),
        slots_outcome(second, expected),
    ensures
        match (first, second) {
            (Ok(a), Ok(b)) => ident_views(a@) == ident_views(b@),
            (Err(a), Err(b)) => a@ == b@,
            _ => false,
        },
{
}

} // verus!
