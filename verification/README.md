# unica_coder

Tools for 1C:Enterprise metadata files, as a verified library with a thin
command-line front end.

- `src/` is the library. Each module states what its functions return with
  `requires`/`ensures` contracts and proves them:
  - data composition schemas: editing (`skd_*` modules), with a run that saves
    nothing when one value fails, the full schema check (`skd_check`), each
    of its checks stated as what it adds to the report, building a schema
    from its definition (`skd_compile`), and the field map, link and template
    reports with their paging (`skd_info`);
  - spreadsheet templates: validation (`mxl_check`), overview (`mxl_info`),
    decompiling to JSON (`mxl_decompile`, reading the template in `mxl_read`),
    compiling a template from its definition (`mxl_compile`), format helpers
    (`mxl`);
  - roles: rights, presets and compiling (`role`, `role_rights`), validation
    (`role_check`), overview (`role_info`);
  - subsystems: validation, compiling and registration (`subsystem`), the
    report of a command interface (`subsystem_info`), and the edits of a
    subsystem's content, children and properties (`subsystem_edit`);
  - shapes of metadata values and the format version a configuration
    declares (`metadata`);
  - XML is read by `xml`, which turns the parser's node records (depth, name,
    attributes, text, namespaces in scope) into a tree of elements whose
    contents the contracts speak of;
  - `laws` holds properties that relate several functions.
- `app/` reads and writes files, parses JSON definitions and calls the library.
- `tests/` runs the library on concrete inputs.
