//! The patterns of the Go syntax tree that the matchers run, in the
//! query language of tree-sitter, and the names of the captures that the
//! matchers read.
//!
//! The seven subtest patterns all ask for a call of a method named `Run`;
//! the six table-driven ones also ask that the field handed to `Run` is
//! a field of type `string` of the case's struct.

use vstd::prelude::*;

verus! {

/// The capture that holds the name of a test function.
pub const TEST_NAME: &'static str = "test_name";

/// The capture that holds the declaration of a test function.
pub const TEST_FUNCTION: &'static str = "testfunc";

/// The capture that holds one case of a subtest pattern.
pub const CASE: &'static str = "test.case";

/// The capture that holds the name of a subtest given as a string literal.
pub const CASE_NAME_VALUE: &'static str = "test.case.name.value";

/// The capture that holds the name of a case of a table.
pub const CASE_FIELD_VALUE: &'static str = "test.case.field.value";

/// The capture that holds a build comment.
pub const BUILD_TAGS: &'static str = "build_tags";

/// A function declaration with a parameter that is a pointer to a
/// qualified type, such as `t *testing.T`.
pub const TEST_FUNCTION_PATTERN: &'static str = "
(function_declaration
  name: (identifier) @test_name
  parameters: (parameter_list
    (parameter_declaration
      name: (identifier)
      type: (pointer_type
        (qualified_type
          package: (package_identifier) @_param_package
          name: (type_identifier) @_param_name))))) @testfunc
";

/// `t.Run(\"name\", func(t *testing.T) { .. })`: the name is a string
/// literal.
pub const STRING_LITERAL_PATTERN: &'static str = "
(expression_statement
  (call_expression
    function: (selector_expression
      operand: (identifier) @testing
      field: (field_identifier) @testing.method (#eq? @testing.method \"Run\"))
    arguments: (argument_list
      (interpreted_string_literal) @test.case.name.value
      (func_literal
        parameters: (parameter_list
          (parameter_declaration
            name: (identifier)
            type: (pointer_type
              (qualified_type
                package: (package_identifier) @test.case.package
                name: (type_identifier) @test.case.package.param)))))))) @test.case
";

/// A loop over a literal slice of an anonymous struct, the cases written
/// with field names.
pub const IN_LOOP_NAMED_FIELDS_PATTERN: &'static str = "
(for_statement
  (range_clause
    left: (expression_list
      (identifier)
      (identifier) @test.loop.case.variable)
    right: (composite_literal
      type: (slice_type
        element: (struct_type
          (field_declaration_list
            (field_declaration
              name: (field_identifier) @test.case.definition.field
              type: (type_identifier) @test.case.definition.field.type (#eq? @test.case.definition.field.type \"string\")))) @test.case.type)
      body: (literal_value
        (literal_element
          (literal_value
            (keyed_element
              (literal_element
                (identifier)) @test.case.field.name (#eq? @test.case.field.name @test.case.definition.field)
              (literal_element
                (interpreted_string_literal) @test.case.field.value))) @test.case))))
  body: (block
    (expression_statement
      (call_expression
        function: (selector_expression
          operand: (identifier) @test.loop.test
          field: (field_identifier) @test.loop.test.method (#eq? @test.loop.test.method \"Run\"))
        arguments: (argument_list
          (selector_expression
            operand: (identifier) @test.loop.test.variable (#eq? @test.loop.test.variable @test.loop.case.variable)
            field: (field_identifier) @test.loop.test.variable.field (#eq? @test.loop.test.variable.field @test.case.definition.field)))))))
";

/// A loop over a literal slice of an anonymous struct, the cases written
/// without field names.
pub const IN_LOOP_UNNAMED_FIELDS_PATTERN: &'static str = "
(for_statement
  (range_clause
    left: (expression_list
      (identifier)
      (identifier) @test.loop.case.variable)
    right: (composite_literal
      type: (slice_type
        element: (struct_type
          (field_declaration_list
            (field_declaration
              name: (field_identifier) @test.case.definition.field
              type: (type_identifier) @test.case.definition.field.type (#eq? @test.case.definition.field.type \"string\")))))
      body: (literal_value
        (literal_element
          (literal_value
            (literal_element
              (interpreted_string_literal) @test.case.field.value))) @test.case)))
  body: (block
    (expression_statement
      (call_expression
        function: (selector_expression
          operand: (identifier) @test.loop.test
          field: (field_identifier) @test.loop.test.method (#eq? @test.loop.test.method \"Run\"))
        arguments: (argument_list
          (selector_expression
            operand: (identifier) @test.loop.test.variable (#eq? @test.loop.test.variable @test.loop.case.variable)
            field: (field_identifier) @test.loop.test.variable.field (#eq? @test.loop.test.variable.field @test.case.definition.field)))))))
";

/// A loop over a literal slice of a struct type declared before it, the
/// cases written without field names.
pub const IN_LOOP_TYPED_UNNAMED_FIELDS_PATTERN: &'static str = "
((type_declaration
  (type_spec
    name: (type_identifier) @test.case.variable.name
    type: (struct_type
      (field_declaration_list
        (field_declaration
          name: (field_identifier) @test.case.definition.field
          type: (type_identifier) @test.case.definition.field.type (#eq? @test.case.definition.field.type \"string\")))) @test.case.type))
 (for_statement
  (range_clause
    left: (expression_list
      (identifier)
      (identifier) @test.loop.case.variable)
    right: (composite_literal
      type: (slice_type
        element: (type_identifier) @test.loop.case.variable.type (#eq? @test.loop.case.variable.type @test.case.variable.name))
      body: (literal_value
        (literal_element
          (literal_value
            (literal_element
              (interpreted_string_literal) @test.case.field.value))) @test.case)))
  body: (block
    (expression_statement
      (call_expression
        function: (selector_expression
          operand: (identifier) @test.loop.test
          field: (field_identifier) @test.loop.test.method (#eq? @test.loop.test.method \"Run\"))
        arguments: (argument_list
          (selector_expression
            operand: (identifier) @test.loop.test.variable (#eq? @test.loop.case.variable @test.loop.test.variable)
            field: (field_identifier) @test.loop.test.variable.field (#eq? @test.case.definition.field @test.loop.test.variable.field))))))))
";

/// A loop over a literal slice of a struct type declared before it, the
/// cases written with field names.
pub const IN_LOOP_TYPED_NAMED_FIELDS_PATTERN: &'static str = "
((type_declaration
  (type_spec
    name: (type_identifier) @test.case.variable.name
    type: (struct_type
      (field_declaration_list
        (field_declaration
          name: (field_identifier) @test.case.definition.field
          type: (type_identifier) @test.case.definition.field.type (#eq? @test.case.definition.field.type \"string\")))) @test.case.type))
 (for_statement
  (range_clause
    left: (expression_list
      (identifier)
      (identifier) @test.loop.case.variable)
    right: (composite_literal
      type: (slice_type
        element: (type_identifier) @test.loop.case.variable.type (#eq? @test.loop.case.variable.type @test.case.variable.name))
      body: (literal_value
        (literal_element
          (literal_value
            (keyed_element
              (literal_element
                (identifier)) @test.case.field.name (#eq? @test.case.field.name @test.case.definition.field)
              (literal_element
                (interpreted_string_literal) @test.case.field.value))) @test.case))))
  body: (block
    (expression_statement
      (call_expression
        function: (selector_expression
          operand: (identifier) @test.loop.test
          field: (field_identifier) @test.loop.test.method (#eq? @test.loop.test.method \"Run\"))
        arguments: (argument_list
          (selector_expression
            operand: (identifier) @test.loop.test.variable (#eq? @test.loop.case.variable @test.loop.test.variable)
            field: (field_identifier) @test.loop.test.variable.field (#eq? @test.case.definition.field @test.loop.test.variable.field))))))))
";

/// A slice of cases assigned to a variable and a loop over that
/// variable, the cases written with field names.
pub const OUT_OF_LOOP_NAMED_FIELDS_PATTERN: &'static str = "
(block
  (short_var_declaration
    left: (expression_list
      (identifier) @test.cases.variable.name)
    right: (expression_list
      (composite_literal
        type: (slice_type
          element: (struct_type
            (field_declaration_list
              (field_declaration
                name: (field_identifier) @test.case.definition.field
                type: (type_identifier) @test.case.definition.field.type (#eq? @test.case.definition.field.type \"string\"))) @test.case.type))
        body: (literal_value
          (literal_element
            (literal_value
              (keyed_element
                (literal_element
                  (identifier)) @test.case.field.name (#eq? @test.case.field.name @test.case.definition.field)
                (literal_element
                  (interpreted_string_literal) @test.case.field.value))) @test.case)))))
  (for_statement
    (range_clause
      left: (expression_list
        (identifier)
        (identifier) @test.loop.case.variable)
      right: (identifier) @test.loop.cases.variable.name (#eq? @test.loop.cases.variable.name @test.cases.variable.name))
    body: (block
      (expression_statement
        (call_expression
          function: (selector_expression
            operand: (identifier) @test.loop.test
            field: (field_identifier) @test.loop.test.method (#eq? @test.loop.test.method \"Run\"))
          arguments: (argument_list
            (selector_expression
              operand: (identifier) @test.loop.test.variable (#eq? @test.loop.test.variable @test.loop.case.variable)
              field: (field_identifier) @test.loop.test.variable.field (#eq? @test.loop.test.variable.field @test.case.definition.field))))))))
";

/// A slice of cases assigned to a variable and a loop over that
/// variable, the cases written without field names.
pub const OUT_OF_LOOP_UNNAMED_FIELDS_PATTERN: &'static str = "
(block
  (short_var_declaration
    left: (expression_list
      (identifier) @test.cases.variable.name)
    right: (expression_list
      (composite_literal
        type: (slice_type
          element: (struct_type
            (field_declaration_list
              (field_declaration
                name: (field_identifier) @test.case.definition.field
                type: (type_identifier) @test.case.definition.field.type (#eq? @test.case.definition.field.type \"string\"))) @test.case.type))
        body: (literal_value
          (literal_element
            (literal_value
              (literal_element
                (interpreted_string_literal) @test.case.field.value))) @test.case))))
  (for_statement
    (range_clause
      left: (expression_list
        (identifier)
        (identifier) @test.loop.case.variable)
      right: (identifier) @test.loop.cases.variable.name (#eq? @test.loop.cases.variable.name @test.cases.variable.name))
    body: (block
      (expression_statement
        (call_expression
          function: (selector_expression
            operand: (identifier) @test.loop.test
            field: (field_identifier) @test.loop.test.method (#eq? @test.loop.test.method \"Run\"))
          arguments: (argument_list
            (selector_expression
              operand: (identifier) @test.loop.test.variable (#eq? @test.loop.test.variable @test.loop.case.variable)
              field: (field_identifier) @test.loop.test.variable.field (#eq? @test.loop.test.variable.field @test.case.definition.field))))))))
";

/// A comment of the file before its package clause.
pub const BUILD_TAGS_PATTERN: &'static str = "
(source_file
  (comment) @build_tags
  (package_clause
    (package_identifier) @package_name))
";

/// An import of the package `testing` that stands alone.
pub const SINGLE_IMPORT_PATTERN: &'static str = "
(import_declaration
  (import_spec
    path: (interpreted_string_literal) @import.path (#eq? @import.path \"\\\"testing\\\"\")))
";

/// An import of the package `testing` in a list of imports.
pub const IMPORT_LIST_PATTERN: &'static str = "
(import_declaration
  (import_spec_list
    (import_spec
      path: (interpreted_string_literal) @import.path (#eq? @import.path \"\\\"testing\\\"\"))))
";

} // verus!
